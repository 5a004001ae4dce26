//! Cached response snapshots: an immutable copy of a successful response's
//! status, headers and body, stamped with its creation time.

use vstd::prelude::*;
use crate::ascii::copy_bytes;

verus! {

/// Mathematical model of a cached response.
pub ghost struct CacheEntryModel {
    pub body: Seq<u8>,
    pub headers: Seq<(Seq<u8>, Seq<u8>)>,
    pub status: u16,
    pub created_at: u64,
}

/// An immutable snapshot of a successful response: byte payload, header
/// pairs, status code and the monotonic second at which it was taken.  It is
/// only ever built from a response whose status is in the 2xx range.
pub struct CacheEntry {
    pub body: Vec<u8>,
    pub headers: Vec<(Vec<u8>, Vec<u8>)>,
    pub status: u16,
    pub created_at: u64,
}

impl View for CacheEntry {
    type V = CacheEntryModel;

    open spec fn view(&self) -> CacheEntryModel {
        CacheEntryModel {
            body: self.body@,
            headers: Seq::new(
                self.headers@.len(),
                |i: int| (self.headers@[i].0@, self.headers@[i].1@),
            ),
            status: self.status,
            created_at: self.created_at,
        }
    }
}

impl CacheEntry {
    /// Only successful responses are ever snapshotted.
    pub open spec fn wf(&self) -> bool {
        200 <= self.status < 300
    }

    /// Snapshots a successful response at time `now`; a response outside the
    /// 2xx range yields nothing and is never cached.
    pub fn snapshot(status: u16, headers: &Vec<(Vec<u8>, Vec<u8>)>, body: &[u8], now: u64) -> (r:
        Option<CacheEntry>)
        ensures
            match r {
                Some(e) => 200 <= status < 300 && e.wf() && e@.status == status && e@.body == body@
                    && e@.headers.len() == headers@.len() && (forall|i: int|
                    0 <= i < headers@.len() ==> #[trigger] e@.headers[i] == (
                    headers@[i].0@,
                    headers@[i].1@,
                )) && e@.created_at == now,
                None => !(200 <= status < 300),
            },
    {
        if 200 <= status && status < 300 {
            let mut hs: Vec<(Vec<u8>, Vec<u8>)> = Vec::new();
            let mut i: usize = 0;
            while i < headers.len()
                invariant
                    i <= headers@.len(),
                    hs@.len() == i,
                    forall|j: int|
                        0 <= j < i ==> ((#[trigger] hs@[j]).0@, hs@[j].1@) == (
                            headers@[j].0@,
                            headers@[j].1@,
                        ),
                decreases headers@.len() - i,
            {
                let name = copy_bytes(headers[i].0.as_slice());
                let value = copy_bytes(headers[i].1.as_slice());
                hs.push((name, value));
                i += 1;
            }
            Some(
                CacheEntry {
                    body: copy_bytes(body),
                    headers: hs,
                    status,
                    created_at: now,
                },
            )
        } else {
            None
        }
    }

    /// A value copy of the snapshot, handed out on retrieval so that the
    /// stored entry is never exposed.
    pub fn duplicate(&self) -> (r: CacheEntry)
        ensures
            r@ == self@,
            r.wf() == self.wf(),
    {
        let mut hs: Vec<(Vec<u8>, Vec<u8>)> = Vec::new();
        let mut i: usize = 0;
        while i < self.headers.len()
            invariant
                i <= self.headers@.len(),
                hs@.len() == i,
                forall|j: int|
                    0 <= j < i ==> ((#[trigger] hs@[j]).0@, hs@[j].1@) == (
                        self.headers@[j].0@,
                        self.headers@[j].1@,
                    ),
            decreases self.headers@.len() - i,
        {
            let name = copy_bytes(self.headers[i].0.as_slice());
            let value = copy_bytes(self.headers[i].1.as_slice());
            hs.push((name, value));
            i += 1;
        }
        let r = CacheEntry {
            body: copy_bytes(self.body.as_slice()),
            headers: hs,
            status: self.status,
            created_at: self.created_at,
        };
        proof {
            assert(r@.headers =~= self@.headers);
        }
        r
    }
}

} // verus!
