//! Attack registry: one abuse-tracking record per client address, the ban
//! test, the escalation table, and the periodic reap of stale records.
//!
//! Time is a monotonic clock reading in whole seconds, handed in by the
//! caller; the registry never reads a clock itself.

use vstd::prelude::*;

verus! {

/// Per-client abuse record: how many flagged requests were seen, when the
/// first and the most recent one arrived, and the ban expiry, if a ban was
/// imposed.
#[derive(Clone, Copy, Debug, PartialEq, Eq)]
pub struct AttackAttempt {
    pub count: u32,
    pub first_attempt: u64,
    pub last_attempt: u64,
    pub banned_until: Option<u64>,
}

/// Seconds elapsed from `t` to `now`; zero if `now` is not past `t`.
pub open spec fn age(t: u64, now: u64) -> u64 {
    if now >= t {
        (now - t) as u64
    } else {
        0
    }
}

/// The record found for a client, if one exists.
pub open spec fn reg_find(m: Map<Seq<char>, AttackAttempt>, ip: Seq<char>) -> Option<
    AttackAttempt,
> {
    if m.contains_key(ip) {
        Some(m[ip])
    } else {
        None
    }
}

/// A client is banned while its record carries a ban expiry still in the
/// future.
pub open spec fn banned_at(m: Map<Seq<char>, AttackAttempt>, ip: Seq<char>, now: u64) -> bool {
    m.contains_key(ip) && match m[ip].banned_until {
        Some(b) => now < b,
        None => false,
    }
}

/// The attempt count after one more flagged request: one more than before,
/// starting at one, and saturating at the counter's width.
pub open spec fn bumped_count(prev: Option<AttackAttempt>) -> u32 {
    match prev {
        None => 1,
        Some(a) => if a.count < u32::MAX {
            (a.count + 1) as u32
        } else {
            a.count
        },
    }
}

/// The record after one more flagged request at time `now`: the count is
/// bumped, the last-attempt stamp moves to `now`, the first-attempt stamp is
/// kept, and exactly the third attempt imposes a one-hour ban.
pub open spec fn next_attempt(prev: Option<AttackAttempt>, now: u64) -> AttackAttempt {
    let c = bumped_count(prev);
    AttackAttempt {
        count: c,
        first_attempt: match prev {
            None => now,
            Some(a) => a.first_attempt,
        },
        last_attempt: now,
        banned_until: if c == 3 {
            Some((now + 3600) as u64)
        } else {
            match prev {
                None => None,
                Some(a) => a.banned_until,
            }
        },
    }
}

/// The escalation table: the imposed delay, in seconds, for a given attempt
/// count.
pub open spec fn delay_for(c: u32) -> u64 {
    if c == 1 {
        5
    } else if c == 2 {
        15
    } else if c == 3 {
        30
    } else {
        60
    }
}

/// Whether the reaper retains a record at time `now`: a banned record stays
/// until its ban expiry has passed, an unbanned one until it has seen no
/// activity for a day.
pub open spec fn keep_record(a: AttackAttempt, now: u64) -> bool {
    match a.banned_until {
        Some(b) => now <= b,
        None => age(a.last_attempt, now) < 86400,
    }
}

/// The registry: at most one record per client address, mutated on every
/// flagged request and read by the ban test and the diagnostics exporter.
pub struct AttackRegistry {
    entries: Vec<(String, AttackAttempt)>,
}

impl View for AttackRegistry {
    type V = Map<Seq<char>, AttackAttempt>;

    closed spec fn view(&self) -> Map<Seq<char>, AttackAttempt> {
        Map::new(
            |ip: Seq<char>|
                exists|i: int| 0 <= i < self.entries@.len() && self.entries@[i].0@ == ip,
            |ip: Seq<char>|
                {
                    let i = choose|i: int|
                        0 <= i < self.entries@.len() && self.entries@[i].0@ == ip;
                    self.entries@[i].1
                },
        )
    }
}

impl AttackRegistry {
    /// At most one record per client address.
    pub closed spec fn wf(&self) -> bool {
        forall|i: int, j: int|
            0 <= i < j < self.entries@.len() ==> (#[trigger] self.entries@[i]).0@ != (
            #[trigger] self.entries@[j]).0@
    }

    /// How many clients are tracked.
    pub closed spec fn spec_len(&self) -> nat {
        self.entries@.len()
    }

    /// Two distinct positions hold distinct keys.
    proof fn lemma_wf_distinct(&self, i: int, j: int)
        requires
            self.wf(),
            0 <= i < j < self.entries@.len(),
        ensures
            self.entries@[i].0@ != self.entries@[j].0@,
    {
    }

    /// Every stored record is the value its key maps to, and every key in
    /// the map is stored.
    proof fn lemma_view(&self)
        requires
            self.wf(),
        ensures
            forall|i: int|
                0 <= i < self.entries@.len() ==> self@.contains_key(
                    (#[trigger] self.entries@[i]).0@,
                ) && self@[self.entries@[i].0@] == self.entries@[i].1,
            forall|ip: Seq<char>|
                self@.contains_key(ip) ==> exists|i: int|
                    0 <= i < self.entries@.len() && (#[trigger] self.entries@[i]).0@ == ip,
    {
        assert forall|i: int| 0 <= i < self.entries@.len() implies self@.contains_key(
            (#[trigger] self.entries@[i]).0@,
        ) && self@[self.entries@[i].0@] == self.entries@[i].1 by {
            let ip = self.entries@[i].0@;
            assert(self@.contains_key(ip));
            let j = choose|j: int| 0 <= j < self.entries@.len() && self.entries@[j].0@ == ip;
            assert(j == i);
        }
    }

    /// An empty registry.
    pub fn new() -> (r: Self)
        ensures
            r.wf(),
            r@ == Map::<Seq<char>, AttackAttempt>::empty(),
            r.spec_len() == 0,
    {
        let r = AttackRegistry { entries: Vec::new() };
        proof {
            assert(r@ =~= Map::<Seq<char>, AttackAttempt>::empty());
        }
        r
    }

    /// Index of the record for `ip`, if one exists.
    fn find_index(&self, ip: &String) -> (r: Option<usize>)
        requires
            self.wf(),
        ensures
            match r {
                Some(i) => i < self.entries@.len() && self.entries@[i as int].0@ == ip@
                    && self@.contains_key(ip@) && self@[ip@] == self.entries@[i as int].1,
                None => !self@.contains_key(ip@),
            },
    {
        proof {
            self.lemma_view();
        }
        let n = self.entries.len();
        let mut i: usize = 0;
        while i < n
            invariant
                self.wf(),
                n == self.entries@.len(),
                i <= n,
                forall|k: int| 0 <= k < i ==> (#[trigger] self.entries@[k]).0@ != ip@,
            decreases n - i,
        {
            if self.entries[i].0 == *ip {
                proof {
                    self.lemma_view();
                }
                return Some(i);
            }
            i += 1;
        }
        proof {
            if self@.contains_key(ip@) {
                let j = choose|j: int|
                    0 <= j < self.entries@.len() && self.entries@[j].0@ == ip@;
                assert(false);
            }
        }
        None
    }

    /// Whether `ip` is banned at time `now`.
    pub fn is_ip_banned(&self, ip: &String, now: u64) -> (r: bool)
        requires
            self.wf(),
        ensures
            r == banned_at(self@, ip@, now),
    {
        match self.find_index(ip) {
            Some(i) => {
                let a = &self.entries[i].1;
                match a.banned_until {
                    Some(b) => now < b,
                    None => false,
                }
            },
            None => false,
        }
    }

    /// The record for `ip`, if one exists.
    pub fn lookup(&self, ip: &String) -> (r: Option<AttackAttempt>)
        requires
            self.wf(),
        ensures
            r == reg_find(self@, ip@),
    {
        match self.find_index(ip) {
            Some(i) => Some(self.entries[i].1),
            None => None,
        }
    }

    /// Records one flagged request from `ip` at time `now` and returns the
    /// imposed delay in seconds together with the updated attempt count.
    ///
    /// The record moves to `next_attempt` of its previous state; every other
    /// client's record is untouched; the delay follows the escalation table.
    pub fn record_attack_attempt(&mut self, ip: &String, now: u64) -> (r: (u64, u32))
        requires
            old(self).wf(),
            now <= u64::MAX - 3600,
        ensures
            final(self).wf(),
            final(self)@ == old(self)@.insert(ip@, next_attempt(reg_find(old(self)@, ip@), now)),
            final(self).spec_len() == old(self).spec_len() + (if old(self)@.contains_key(ip@) {
                0int
            } else {
                1int
            }),
            r.0 == delay_for(next_attempt(reg_find(old(self)@, ip@), now).count),
            r.1 == next_attempt(reg_find(old(self)@, ip@), now).count,
    {
        let ghost prev_map = self@;
        let ghost target = next_attempt(reg_find(prev_map, ip@), now);
        proof {
            self.lemma_view();
        }
        match self.find_index(ip) {
            None => {
                let a = AttackAttempt {
                    count: 1,
                    first_attempt: now,
                    last_attempt: now,
                    banned_until: None,
                };
                self.entries.push((ip.clone(), a));
                proof {
                    let n = self.entries@.len();
                    assert(forall|k: int|
                        0 <= k < n - 1 ==> #[trigger] self.entries@[k] == old(self).entries@[k]);
                    assert(self.entries@[n - 1].0@ == ip@ && self.entries@[n - 1].1 == a);
                    assert forall|p: int, q: int| 0 <= p < q < n implies (
                    #[trigger] self.entries@[p]).0@ != (#[trigger] self.entries@[q]).0@ by {
                        if q == n - 1 {
                            assert(self.entries@[p] == old(self).entries@[p]);
                            if old(self).entries@[p].0@ == ip@ {
                                old(self).lemma_view();
                                assert(old(self)@.contains_key(ip@));
                                assert(false);
                            }
                        } else {
                            assert(self.entries@[p] == old(self).entries@[p]);
                            assert(self.entries@[q] == old(self).entries@[q]);
                        }
                    }
                    assert(self.wf());
                    self.lemma_view();
                    old(self).lemma_view();
                    assert(target == a);
                    assert forall|ip2: Seq<char>| #[trigger] self@.contains_key(ip2) implies
                        prev_map.insert(ip@, target).contains_key(ip2) && self@[ip2]
                        == prev_map.insert(ip@, target)[ip2] by {
                        let j = choose|j: int|
                            0 <= j < self.entries@.len() && self.entries@[j].0@ == ip2;
                        if ip2 == ip@ {
                            assert(self.entries@[n - 1].0@ == ip2);
                            assert(j == n - 1);
                            assert(self@[ip2] == a);
                        } else {
                            assert(j < n - 1);
                            assert(self.entries@[j] == old(self).entries@[j]);
                            assert(old(self)@.contains_key(ip2) && old(self)@[ip2]
                                == old(self).entries@[j].1);
                        }
                    }
                    assert forall|ip2: Seq<char>| #[trigger]
                        prev_map.insert(ip@, target).contains_key(ip2) implies self@.contains_key(
                        ip2,
                    ) by {
                        if ip2 == ip@ {
                            assert(self.entries@[n - 1].0@ == ip2);
                        } else {
                            let j = choose|j: int|
                                0 <= j < old(self).entries@.len() && old(
                                    self,
                                ).entries@[j].0@ == ip2;
                            assert(self.entries@[j] == old(self).entries@[j]);
                            assert(self.entries@[j].0@ == ip2);
                        }
                    }
                    assert(self@ =~= prev_map.insert(ip@, target));
                }
                (5, 1)
            },
            Some(i) => {
                let prev = self.entries[i].1;
                let c = if prev.count < u32::MAX {
                    prev.count + 1
                } else {
                    prev.count
                };
                let banned_until = if c == 3 {
                    Some(now + 3600)
                } else {
                    prev.banned_until
                };
                let a = AttackAttempt {
                    count: c,
                    first_attempt: prev.first_attempt,
                    last_attempt: now,
                    banned_until,
                };
                self.entries.remove(i);
                proof {
                    assert(forall|k: int|
                        0 <= k < i ==> self.entries@[k] == old(self).entries@[k]);
                    assert(forall|k: int|
                        i <= k < self.entries@.len() ==> self.entries@[k] == old(
                            self,
                        ).entries@[k + 1]);
                }
                self.entries.push((ip.clone(), a));
                let delay = if c == 1 {
                    5
                } else if c == 2 {
                    15
                } else if c == 3 {
                    30
                } else {
                    60
                };
                proof {
                    let n = self.entries@.len();
                    assert(self.entries@[n - 1].0@ == ip@ && self.entries@[n - 1].1 == a);
                    assert forall|p: int, q: int| 0 <= p < q < n implies (
                    #[trigger] self.entries@[p]).0@ != (#[trigger] self.entries@[q]).0@ by {
                        if q < n - 1 {
                            let op = if p < i {
                                p
                            } else {
                                p + 1
                            };
                            let oq = if q < i {
                                q
                            } else {
                                q + 1
                            };
                            assert(self.entries@[p] == old(self).entries@[op]);
                            assert(self.entries@[q] == old(self).entries@[oq]);
                        } else {
                            let op = if p < i {
                                p
                            } else {
                                p + 1
                            };
                            assert(self.entries@[p] == old(self).entries@[op]);
                            assert(op != i);
                        }
                    }
                    self.lemma_view();
                    old(self).lemma_view();
                    assert forall|ip2: Seq<char>| #[trigger]
                        prev_map.insert(ip@, target).contains_key(ip2) implies self@.contains_key(
                        ip2,
                    ) && self@[ip2] == prev_map.insert(ip@, target)[ip2] by {
                        if ip2 == ip@ {
                            assert(self.entries@[n - 1].0@ == ip2);
                            assert(self@[ip2] == a);
                        } else {
                            let j = choose|j: int|
                                0 <= j < old(self).entries@.len() && old(
                                    self,
                                ).entries@[j].0@ == ip2;
                            let nj = if j < i {
                                j
                            } else {
                                j - 1
                            };
                            assert(j != i);
                            assert(self.entries@[nj] == old(self).entries@[j]);
                        }
                    }
                    assert forall|ip2: Seq<char>| #[trigger] self@.contains_key(ip2) implies
                        prev_map.insert(ip@, target).contains_key(ip2) by {
                        let j = choose|j: int|
                            0 <= j < self.entries@.len() && self.entries@[j].0@ == ip2;
                        if j < n - 1 {
                            let oj = if j < i {
                                j
                            } else {
                                j + 1
                            };
                            assert(self.entries@[j] == old(self).entries@[oj]);
                        }
                    }
                    assert(self@ =~= prev_map.insert(ip@, target));
                }
                (delay, c)
            },
        }
    }

    /// Removes every stale record: banned records whose ban expiry has
    /// passed, and unbanned records idle for a day or more.  Every retained
    /// record is unchanged.
    #[verifier::rlimit(50)]
    pub fn reap(&mut self, now: u64)
        requires
            old(self).wf(),
        ensures
            final(self).wf(),
            forall|ip: Seq<char>|
                #[trigger] final(self)@.contains_key(ip) <==> (old(self)@.contains_key(ip)
                    && keep_record(old(self)@[ip], now)),
            forall|ip: Seq<char>|
                final(self)@.contains_key(ip) ==> final(self)@[ip] == old(self)@[ip],
            final(self).spec_len() <= old(self).spec_len(),
    {
        proof {
            self.lemma_view();
        }
        let ghost old_seq = self.entries@;
        let n = self.entries.len();
        let mut kept: Vec<(String, AttackAttempt)> = Vec::new();
        let mut i: usize = 0;
        while i < n
            invariant
                old(self).wf(),
                n == old_seq.len(),
                i <= n,
                old_seq == old(self).entries@,
                self.entries@ == old_seq,
                kept@.len() <= i,
                forall|p: int|
                    0 <= p < kept@.len() ==> exists|j: int|
                        0 <= j < i && old_seq[j] == #[trigger] kept@[p],
                forall|j: int|
                    0 <= j < i && keep_record((#[trigger] old_seq[j]).1, now) ==> exists|p: int|
                        0 <= p < kept@.len() && kept@[p] == old_seq[j],
                forall|p: int| 0 <= p < kept@.len() ==> keep_record((#[trigger] kept@[p]).1, now),
                forall|p: int, q: int|
                    0 <= p < q < kept@.len() ==> (#[trigger] kept@[p]).0@ != (
                    #[trigger] kept@[q]).0@,
            decreases n - i,
        {
            let a = self.entries[i].1;
            let keep = match a.banned_until {
                Some(b) => now <= b,
                None => (if now >= a.last_attempt {
                    now - a.last_attempt
                } else {
                    0
                }) < 86400,
            };
            proof {
                assert(keep == keep_record(old_seq[i as int].1, now));
            }
            if keep {
                let key = self.entries[i].0.clone();
                proof {
                    assert(key == self.entries@[i as int].0);
                }
                let ghost kept_before = kept@;
                kept.push((key, a));
                proof {
                    let newp = kept@.len() - 1;
                    assert(forall|p: int|
                        0 <= p < kept_before.len() ==> #[trigger] kept@[p] == kept_before[p]);
                    assert(kept@[newp] == old_seq[i as int]);
                    assert forall|p: int, q: int| 0 <= p < q < kept@.len() implies (
                    #[trigger] kept@[p]).0@ != (#[trigger] kept@[q]).0@ by {
                        if q == newp {
                            assert(kept@[p] == kept_before[p]);
                            assert(exists|j: int|
                                0 <= j < i && old_seq[j] == #[trigger] kept_before[p]);
                            let j = choose|j: int| 0 <= j < i && old_seq[j] == kept_before[p];
                            old(self).lemma_wf_distinct(j, i as int);
                        }
                    }
                    assert forall|j: int|
                        0 <= j < i + 1 && keep_record((#[trigger] old_seq[j]).1, now) implies
                        exists|p: int| 0 <= p < kept@.len() && kept@[p] == old_seq[j] by {
                        if j == i {
                            assert(kept@[newp] == old_seq[j]);
                        } else {
                            let p0 = choose|p0: int|
                                0 <= p0 < kept_before.len() && kept_before[p0] == old_seq[j];
                            assert(kept@[p0] == old_seq[j]);
                        }
                    }
                }
            }
            i += 1;
        }
        self.entries = kept;
        proof {
            self.lemma_view();
            assert forall|ip: Seq<char>| #[trigger]
                self@.contains_key(ip) implies (old(self)@.contains_key(ip) && keep_record(
                old(self)@[ip],
                now,
            ) && self@[ip] == old(self)@[ip]) by {
                let p = choose|p: int|
                    0 <= p < self.entries@.len() && self.entries@[p].0@ == ip;
                let j = choose|j: int| 0 <= j < n && old_seq[j] == self.entries@[p];
                assert(old(self).entries@[j].0@ == ip);
                old(self).lemma_view();
            }
            assert forall|ip: Seq<char>|
                old(self)@.contains_key(ip) && keep_record(old(self)@[ip], now) implies
                #[trigger] self@.contains_key(ip) by {
                old(self).lemma_view();
                let j = choose|j: int| 0 <= j < n && old_seq[j].0@ == ip;
                assert(old(self)@[ip] == old_seq[j].1);
                let p = choose|p: int|
                    0 <= p < self.entries@.len() && self.entries@[p] == old_seq[j];
                assert(self.entries@[p].0@ == ip);
            }
        }
    }

    /// A value snapshot of every tracked client and its record, for the
    /// diagnostics exporter.
    pub fn get_attack_stats(&self) -> (r: Vec<(String, AttackAttempt)>)
        requires
            self.wf(),
        ensures
            r@.len() == self.spec_len(),
            forall|p: int|
                0 <= p < r@.len() ==> self@.contains_key((#[trigger] r@[p]).0@) && self@[r@[p].0@]
                    == r@[p].1,
            forall|ip: Seq<char>|
                #[trigger] self@.contains_key(ip) ==> exists|p: int|
                    0 <= p < r@.len() && (#[trigger] r@[p]).0@ == ip,
            forall|p: int, q: int|
                0 <= p < q < r@.len() ==> (#[trigger] r@[p]).0@ != (#[trigger] r@[q]).0@,
    {
        proof {
            self.lemma_view();
        }
        let n = self.entries.len();
        let mut r: Vec<(String, AttackAttempt)> = Vec::new();
        let mut i: usize = 0;
        while i < n
            invariant
                self.wf(),
                n == self.entries@.len(),
                i <= n,
                r@.len() == i,
                forall|p: int| 0 <= p < i ==> #[trigger] r@[p] == self.entries@[p],
            decreases n - i,
        {
            let key = self.entries[i].0.clone();
            let a = self.entries[i].1;
            r.push((key, a));
            proof {
                assert(r@[i as int].0@ == self.entries@[i as int].0@ && r@[i as int].1
                    == self.entries@[i as int].1);
                assert(r@[i as int] == self.entries@[i as int]);
            }
            i += 1;
        }
        proof {
            self.lemma_view();
            assert forall|ip: Seq<char>| #[trigger] self@.contains_key(ip) implies exists|p: int|
                0 <= p < r@.len() && (#[trigger] r@[p]).0@ == ip by {
                let j = choose|j: int|
                    0 <= j < self.entries@.len() && self.entries@[j].0@ == ip;
                assert(r@[j].0@ == ip);
            }
        }
        r
    }
}

} // verus!
