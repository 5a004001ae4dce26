//! Laws of the middleware, stated over the same models and spec functions
//! the function contracts use, and proved once and for all.

use vstd::prelude::*;
use crate::bucket::{bucket_find, fresh_at, BucketModel};
use crate::entry::CacheEntryModel;
use crate::registry::{banned_at, delay_for, next_attempt, reg_find, AttackAttempt};
use crate::router::CacheType;
use crate::store::CacheStore;

verus! {

/// Cache idempotence: a snapshot stored on a miss is still found, fresh
/// and intact, by a lookup of the same key within the bucket's TTL.  Under
/// the middleware contract such a lookup can only be a HIT returning the
/// stored entry unchanged — the MISS branch's condition (second clause
/// below) is ruled out — so the inner handler is not delegated to again.
pub proof fn cache_idempotence(
    s: BucketModel,
    t: CacheType,
    k: Seq<u8>,
    m: CacheEntryModel,
    now: u64,
    now2: u64,
)
    requires
        bucket_find(s, k) == Some(m),
        m.created_at == now,
        now <= now2,
        now2 - now < CacheStore::ttl_of(t),
    ensures
        fresh_at(m, CacheStore::ttl_of(t), now2),
        !(match bucket_find(s, k) {
            Some(x) => !fresh_at(x, CacheStore::ttl_of(t), now2),
            None => true,
        }),
{
}

/// TTL expiry: once a stored entry's TTL has elapsed, it is no longer
/// fresh, and a lookup of its key satisfies exactly the middleware
/// contract's MISS condition — the request is delegated afresh.
pub proof fn ttl_expiry(s: BucketModel, t: CacheType, k: Seq<u8>, m: CacheEntryModel, now2: u64)
    requires
        bucket_find(s, k) == Some(m),
        now2 >= m.created_at + CacheStore::ttl_of(t),
    ensures
        !fresh_at(m, CacheStore::ttl_of(t), now2),
        match bucket_find(s, k) {
            Some(x) => !fresh_at(x, CacheStore::ttl_of(t), now2),
            None => true,
        },
{
}

/// Escalation determinism: for one client with no prior record, four
/// successive flagged requests move its record through the escalation
/// table deterministically — delays of 5, 15, 30 and 60 seconds, with a
/// one-hour ban imposed at exactly the third attempt and still in force at
/// the fourth.
pub proof fn escalation_determinism(
    m0: Map<Seq<char>, AttackAttempt>,
    ip: Seq<char>,
    t1: u64,
    t2: u64,
    t3: u64,
    t4: u64,
)
    requires
        !m0.contains_key(ip),
        t3 <= u64::MAX - 3600,
    ensures
        ({
            let a1 = next_attempt(reg_find(m0, ip), t1);
            let m1 = m0.insert(ip, a1);
            let a2 = next_attempt(reg_find(m1, ip), t2);
            let m2 = m1.insert(ip, a2);
            let a3 = next_attempt(reg_find(m2, ip), t3);
            let m3 = m2.insert(ip, a3);
            let a4 = next_attempt(reg_find(m3, ip), t4);
            &&& a1.count == 1 && delay_for(a1.count) == 5 && a1.banned_until is None
            &&& a2.count == 2 && delay_for(a2.count) == 15 && a2.banned_until is None
            &&& a3.count == 3 && delay_for(a3.count) == 30 && a3.banned_until == Some(
                (t3 + 3600) as u64,
            )
            &&& a4.count == 4 && delay_for(a4.count) == 60 && a4.banned_until == Some(
                (t3 + 3600) as u64,
            )
        }),
{
}

/// Ban persistence: while a record's ban expiry lies ahead, the client is
/// banned — under the detector contract every such request takes the
/// forbidden path and the record does not advance.  Once the expiry has
/// passed the ban test fails, and the next flagged request escalates from
/// the stored attempt count, not from a reset one.
pub proof fn ban_persistence(
    m: Map<Seq<char>, AttackAttempt>,
    ip: Seq<char>,
    expiry: u64,
    now: u64,
    later: u64,
)
    requires
        m.contains_key(ip),
        m[ip].banned_until == Some(expiry),
        m[ip].count < u32::MAX,
    ensures
        now < expiry ==> banned_at(m, ip, now),
        later >= expiry ==> !banned_at(m, ip, later),
        next_attempt(reg_find(m, ip), later).count == m[ip].count + 1,
{
}

} // verus!
