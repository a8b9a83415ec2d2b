//! The TTL-keyed result cache.
//!
//! Completed and queued replies are stored under the job id together with
//! their insertion time. A lookup returns a value only while it is younger
//! than the configured time-to-live; a stale entry is evicted by the very
//! read that finds it, and a periodic sweep evicts the rest.

use vstd::prelude::*;
use crate::api::InferenceRunReply;
use crate::time::now_seconds;

verus! {

/// One cached entry: the reply under its job id, and when it was written.
#[derive(Debug)]
pub struct CacheSlot {
    pub key: String,
    pub reply: InferenceRunReply,
    pub inserted_at: i64,
}

/// No job id occurs twice.
pub open spec fn slot_keys_unique(s: Seq<CacheSlot>) -> bool {
    forall|i: int, j: int| 0 <= i < j < s.len() ==> s[i].key@ != s[j].key@
}

/// The first slot stored under key `k`, if any.
pub open spec fn seq_lookup(s: Seq<CacheSlot>, k: Seq<char>) -> Option<CacheSlot>
    decreases s.len(),
{
    if s.len() == 0 {
        None
    } else if s[0].key@ == k {
        Some(s[0])
    } else {
        seq_lookup(s.drop_first(), k)
    }
}

proof fn lemma_lookup_skip(s: Seq<CacheSlot>, k: Seq<char>, i: int)
    requires
        0 <= i <= s.len(),
        forall|j: int| 0 <= j < i ==> s[j].key@ != k,
    ensures
        seq_lookup(s, k) == seq_lookup(s.skip(i), k),
    decreases i,
{
    if i > 0 {
        lemma_lookup_skip(s, k, i - 1);
        assert(s.skip(i - 1)[0] == s[i - 1]);
        assert(s.skip(i - 1).drop_first() =~= s.skip(i));
    } else {
        assert(s.skip(0) =~= s);
    }
}

proof fn lemma_lookup_push(s: Seq<CacheSlot>, x: CacheSlot)
    ensures
        forall|k: Seq<char>| #[trigger] seq_lookup(s.push(x), k) == (match seq_lookup(s, k) {
            Some(sl) => Some(sl),
            None => if x.key@ == k {
                Some(x)
            } else {
                None
            },
        }),
    decreases s.len(),
{
    if s.len() == 0 {
        assert forall|k: Seq<char>| #[trigger] seq_lookup(s.push(x), k) == (match seq_lookup(
            s,
            k,
        ) {
            Some(sl) => Some(sl),
            None => if x.key@ == k {
                Some(x)
            } else {
                None
            },
        }) by {
            reveal_with_fuel(seq_lookup, 3);
            assert(s.push(x)[0] == x);
            assert(s.push(x).drop_first() =~= Seq::<CacheSlot>::empty());
        }
    } else {
        lemma_lookup_push(s.drop_first(), x);
        assert forall|k: Seq<char>| #[trigger] seq_lookup(s.push(x), k) == (match seq_lookup(
            s,
            k,
        ) {
            Some(sl) => Some(sl),
            None => if x.key@ == k {
                Some(x)
            } else {
                None
            },
        }) by {
            reveal_with_fuel(seq_lookup, 3);
            assert(s.push(x)[0] == s[0]);
            assert(s.push(x).drop_first() =~= s.drop_first().push(x));
            assert(seq_lookup(s.push(x).drop_first(), k) == seq_lookup(
                s.drop_first().push(x),
                k,
            ));
        }
    }
}

proof fn lemma_lookup_remove(s: Seq<CacheSlot>, i: int)
    requires
        0 <= i < s.len(),
        slot_keys_unique(s),
    ensures
        forall|k: Seq<char>| #[trigger] seq_lookup(s.remove(i), k) == (if s[i].key@ == k {
            None
        } else {
            seq_lookup(s, k)
        }),
    decreases i,
{
    if i == 0 {
        assert forall|k: Seq<char>| #[trigger] seq_lookup(s.remove(0), k) == (if s[0].key@ == k {
            None
        } else {
            seq_lookup(s, k)
        }) by {
            reveal_with_fuel(seq_lookup, 3);
            assert(s.remove(0) =~= s.drop_first());
            if s[0].key@ == k {
                lemma_lookup_no_key(s.drop_first(), k);
            }
        }
    } else {
        assert(slot_keys_unique(s.drop_first())) by {
            assert forall|p: int, q: int|
                0 <= p < q < s.drop_first().len() implies s.drop_first()[p].key@
                != s.drop_first()[q].key@ by {
                assert(s.drop_first()[p] == s[p + 1]);
                assert(s.drop_first()[q] == s[q + 1]);
            }
        }
        lemma_lookup_remove(s.drop_first(), i - 1);
        assert forall|k: Seq<char>| #[trigger] seq_lookup(s.remove(i), k) == (if s[i].key@ == k {
            None
        } else {
            seq_lookup(s, k)
        }) by {
            reveal_with_fuel(seq_lookup, 3);
            assert(s.remove(i)[0] == s[0]);
            assert(s.remove(i).drop_first() =~= s.drop_first().remove(i - 1));
            assert(seq_lookup(s.remove(i).drop_first(), k) == seq_lookup(
                s.drop_first().remove(i - 1),
                k,
            ));
            assert(s.drop_first()[i - 1] == s[i]);
            if s[0].key@ == k && s[i].key@ == k {
                assert(s[0].key@ != s[i].key@);
                assert(false);
            }
        }
    }
}

/// A sequence holding no slot under `k` looks `k` up to nothing.
proof fn lemma_lookup_no_key(s: Seq<CacheSlot>, k: Seq<char>)
    requires
        forall|j: int| 0 <= j < s.len() ==> s[j].key@ != k,
    ensures
        seq_lookup(s, k) is None,
    decreases s.len(),
{
    if s.len() > 0 {
        lemma_lookup_no_key(s.drop_first(), k);
    }
}

/// A found slot sits somewhere in the sequence under its key.
proof fn lemma_lookup_in_seq(s: Seq<CacheSlot>, k: Seq<char>)
    requires
        seq_lookup(s, k) is Some,
    ensures
        exists|i: int|
            0 <= i < s.len() && s[i] == seq_lookup(s, k)->Some_0 && s[i].key@ == k,
    decreases s.len(),
{
    if s.len() > 0 {
        if s[0].key@ == k {
            assert(s[0] == seq_lookup(s, k)->Some_0);
        } else {
            lemma_lookup_in_seq(s.drop_first(), k);
            let i = choose|i: int|
                0 <= i < s.drop_first().len() && s.drop_first()[i] == seq_lookup(
                    s.drop_first(),
                    k,
                )->Some_0 && s.drop_first()[i].key@ == k;
            assert(s[i + 1] == s.drop_first()[i]);
        }
    }
}

#[derive(Debug)]
pub struct ResultCache {
    slots: Vec<CacheSlot>,
    ttl: i64,
}

/// What one `insert_at` does: the key now maps to the given reply with the
/// given timestamp, and no other key changed.
pub open spec fn insert_rel(
    pre: ResultCache,
    post: ResultCache,
    key: String,
    reply: InferenceRunReply,
    now: i64,
) -> bool {
    &&& post.wf()
    &&& post.ttl_spec() == pre.ttl_spec()
    &&& post.spec_lookup(key@) == Some(CacheSlot { key: key, reply: reply, inserted_at: now })
    &&& forall|k: Seq<char>| k != key@ ==> #[trigger] post.spec_lookup(k) == pre.spec_lookup(k)
}

/// What one `get_at` does: a fresh entry is returned and nothing changes, a
/// stale one is evicted and withheld, an absent one returns nothing; no
/// other key changes either way.
pub open spec fn get_rel(
    pre: ResultCache,
    post: ResultCache,
    key: String,
    now: i64,
    r: Option<InferenceRunReply>,
) -> bool {
    &&& post.wf()
    &&& post.ttl_spec() == pre.ttl_spec()
    &&& match pre.spec_lookup(key@) {
        Some(sl) => {
            if pre.fresh_at(sl, now) {
                r == Some(sl.reply) && post == pre
            } else {
                r is None && post.spec_lookup(key@) is None
            }
        },
        None => r is None && post == pre,
    }
    &&& forall|k: Seq<char>| k != key@ ==> #[trigger] post.spec_lookup(k) == pre.spec_lookup(k)
}

/// What one `cleanup_expired_at` does: exactly the entries fresh at `now`
/// survive, unchanged; every stale entry is gone.
pub open spec fn cleanup_rel(pre: ResultCache, post: ResultCache, now: i64) -> bool {
    &&& post.wf()
    &&& post.ttl_spec() == pre.ttl_spec()
    &&& forall|k: Seq<char>| #[trigger] post.spec_lookup(k) == (match pre.spec_lookup(k) {
        Some(sl) => if pre.fresh_at(sl, now) {
            Some(sl)
        } else {
            None
        },
        None => None,
    })
    &&& forall|j: int|
        0 <= j < post.slots_view().len() ==> post.fresh_at(#[trigger] post.slots_view()[j], now)
}

impl ResultCache {
    /// Everything currently stored, oldest first.
    pub closed spec fn slots_view(&self) -> Seq<CacheSlot> {
        self.slots@
    }

    /// The configured time-to-live, in seconds.
    pub closed spec fn ttl_spec(&self) -> int {
        self.ttl as int
    }

    pub open spec fn wf(&self) -> bool {
        slot_keys_unique(self.slots_view())
    }

    /// The slot stored under `k`, if any.
    pub open spec fn spec_lookup(&self, k: Seq<char>) -> Option<CacheSlot> {
        seq_lookup(self.slots_view(), k)
    }

    /// Whether a slot is still young enough to be served at time `now`.
    pub open spec fn fresh_at(&self, slot: CacheSlot, now: i64) -> bool {
        now - slot.inserted_at < self.ttl_spec()
    }

    pub fn new(ttl_seconds: i64) -> (c: ResultCache)
        ensures
            c.slots_view() == Seq::<CacheSlot>::empty(),
            c.ttl_spec() == ttl_seconds as int,
            c.wf(),
    {
        ResultCache { slots: Vec::new(), ttl: ttl_seconds }
    }

    /// How many entries are stored, expired ones included.
    pub fn len(&self) -> (n: usize)
        ensures
            n as nat == self.slots_view().len(),
    {
        self.slots.len()
    }

    fn is_fresh(&self, inserted_at: i64, now: i64) -> (b: bool)
        ensures
            b == (now - inserted_at < self.ttl_spec()),
    {
        match now.checked_sub(inserted_at) {
            Some(d) => d < self.ttl,
            None => now < inserted_at,
        }
    }

    /// Index of the slot under `key`, if one is stored.
    #[verifier::loop_isolation(false)]
    fn find_index(&self, key: &String) -> (r: Option<usize>)
        ensures
            match r {
                Some(i) => i < self.slots_view().len() && self.slots_view()[i as int].key@ == key@
                    && self.spec_lookup(key@) == Some(self.slots_view()[i as int]),
                None => self.spec_lookup(key@) is None,
            },
    {
        let mut i: usize = 0;
        while i < self.slots.len()
            invariant
                i <= self.slots@.len(),
                forall|j: int| 0 <= j < i ==> self.slots@[j].key@ != key@,
            decreases self.slots@.len() - i,
        {
            if self.slots[i].key.eq(key) {
                proof {
                    lemma_lookup_skip(self.slots@, key@, i as int);
                    assert(self.slots@.skip(i as int)[0] == self.slots@[i as int]);
                }
                return Some(i);
            }
            i = i + 1;
        }
        proof {
            lemma_lookup_skip(self.slots@, key@, self.slots@.len() as int);
            assert(self.slots@.skip(self.slots@.len() as int) =~= Seq::<CacheSlot>::empty());
        }
        None
    }

    /// Store `reply` under `key` as of time `now`, overwriting any earlier
    /// entry under the same key.
    pub fn insert_at(&mut self, key: String, reply: InferenceRunReply, now: i64)
        requires
            old(self).wf(),
        ensures
            final(self).wf(),
            final(self).ttl_spec() == old(self).ttl_spec(),
            final(self).spec_lookup(key@) == Some(
                CacheSlot { key: key, reply: reply, inserted_at: now },
            ),
            forall|k: Seq<char>| k != key@ ==> #[trigger] final(self).spec_lookup(k) == old(self).spec_lookup(k),
            old(self).spec_lookup(key@) is Some ==> final(self).slots_view().len() == old(self).slots_view().len(),
            old(self).spec_lookup(key@) is None ==> final(self).slots_view().len() == old(self).slots_view().len() + 1,
            insert_rel(*old(self), *final(self), key, reply, now),
    {
        let slot = CacheSlot { key, reply, inserted_at: now };
        match self.find_index(&slot.key) {
            Some(i) => {
                let ghost before = self.slots@;
                self.slots.remove(i);
                proof {
                    lemma_lookup_remove(before, i as int);
                    assert(slot_keys_unique(self.slots@)) by {
                        assert(forall|p: int|
                            0 <= p < self.slots@.len() ==> #[trigger] self.slots@[p] == (if p < i
                                as int {
                                before[p]
                            } else {
                                before[p + 1]
                            }));
                    }
                }
                let ghost mid = self.slots@;
                self.slots.push(slot);
                proof {
                    lemma_lookup_push(mid, slot);
                    assert(slot_keys_unique(self.slots@)) by {
                        assert(forall|j: int|
                            0 <= j < mid.len() ==> #[trigger] seq_lookup(mid, mid[j].key@)
                                is Some) by {
                            assert forall|j: int|
                                0 <= j < mid.len() implies #[trigger] seq_lookup(
                                mid,
                                mid[j].key@,
                            ) is Some by {
                                lemma_lookup_skip_to_match(mid, j);
                            }
                        }
                    }
                }
            },
            None => {
                let ghost mid = self.slots@;
                self.slots.push(slot);
                proof {
                    lemma_lookup_push(mid, slot);
                    assert(slot_keys_unique(self.slots@)) by {
                        assert forall|p: int, q: int|
                            0 <= p < q < self.slots@.len() implies self.slots@[p].key@
                            != self.slots@[q].key@ by {
                            if q == self.slots@.len() - 1 {
                                assert(self.slots@[p] == mid[p]);
                                lemma_lookup_skip_to_match(mid, p);
                            }
                        }
                    }
                }
            },
        }
    }

    /// Look `key` up at time `now`: a fresh entry is returned as a copy, a
    /// stale one is evicted and withheld, an absent one is `None`.
    pub fn get_at(&mut self, key: &String, now: i64) -> (r: Option<InferenceRunReply>)
        requires
            old(self).wf(),
        ensures
            final(self).wf(),
            final(self).ttl_spec() == old(self).ttl_spec(),
            match old(self).spec_lookup(key@) {
                Some(sl) => {
                    if old(self).fresh_at(sl, now) {
                        r == Some(sl.reply) && *final(self) == *old(self)
                    } else {
                        r is None && final(self).spec_lookup(key@) is None && final(self).slots_view().len() == old(self).slots_view().len() - 1
                    }
                },
                None => r is None && *final(self) == *old(self),
            },
            forall|k: Seq<char>| k != key@ ==> #[trigger] final(self).spec_lookup(k) == old(self).spec_lookup(k),
            get_rel(*old(self), *final(self), *key, now, r),
    {
        match self.find_index(key) {
            Some(i) => {
                let fresh = self.is_fresh(self.slots[i].inserted_at, now);
                if fresh {
                    Some(self.slots[i].reply.clone())
                } else {
                    let ghost before = self.slots@;
                    self.slots.remove(i);
                    proof {
                        lemma_lookup_remove(before, i as int);
                        assert(slot_keys_unique(self.slots@)) by {
                            assert(forall|p: int|
                                0 <= p < self.slots@.len() ==> #[trigger] self.slots@[p] == (if p
                                    < i as int {
                                    before[p]
                                } else {
                                    before[p + 1]
                                }));
                        }
                    }
                    None
                }
            },
            None => None,
        }
    }

    /// Drop every entry whose age at time `now` has reached the
    /// time-to-live.
    #[verifier::loop_isolation(false)]
    pub fn cleanup_expired_at(&mut self, now: i64)
        requires
            old(self).wf(),
        ensures
            final(self).wf(),
            final(self).ttl_spec() == old(self).ttl_spec(),
            forall|k: Seq<char>| #[trigger] final(self).spec_lookup(k) == (match old(self).spec_lookup(k) {
                Some(sl) => if old(self).fresh_at(sl, now) {
                    Some(sl)
                } else {
                    None
                },
                None => None,
            }),
            forall|j: int|
                0 <= j < final(self).slots_view().len() ==> final(self).fresh_at(
                    #[trigger] final(self).slots_view()[j],
                    now,
                ),
            cleanup_rel(*old(self), *final(self), now),
    {
        let ghost all = self.slots@;
        let mut kept: Vec<CacheSlot> = Vec::new();
        let mut i: usize = 0;
        while i < self.slots.len()
            invariant
                i <= all.len(),
                self.slots@ == all,
                slot_keys_unique(kept@),
                forall|j: int|
                    0 <= j < kept@.len() ==> now - #[trigger] kept@[j].inserted_at
                        < self.ttl_spec(),
                forall|k: Seq<char>| #[trigger] seq_lookup(kept@, k) == (match seq_lookup(
                    all.take(i as int),
                    k,
                ) {
                    Some(sl) => if now - sl.inserted_at < self.ttl_spec() {
                        Some(sl)
                    } else {
                        None
                    },
                    None => None,
                }),
            decreases all.len() - i,
        {
            let slot = cache_slot_copy(&self.slots[i]);
            let ghost prev_kept = kept@;
            let fresh = self.is_fresh(slot.inserted_at, now);
            if fresh {
                kept.push(slot);
            }
            proof {
                assert(all.take(i + 1) =~= all.take(i as int).push(all[i as int]));
                lemma_lookup_push(all.take(i as int), all[i as int]);
                if fresh {
                    lemma_lookup_push(prev_kept, all[i as int]);
                    assert(slot_keys_unique(kept@)) by {
                        assert forall|p: int, q: int|
                            0 <= p < q < kept@.len() implies kept@[p].key@ != kept@[q].key@ by {
                            if q == kept@.len() - 1 {
                                assert(kept@[p] == prev_kept[p]);
                                lemma_lookup_skip_to_match(prev_kept, p);
                                assert(seq_lookup(prev_kept, prev_kept[p].key@) is Some);
                                if kept@[p].key@ == kept@[q].key@ {
                                    assert(seq_lookup(all.take(i as int), kept@[p].key@)
                                        is Some);
                                    lemma_lookup_in_seq(all.take(i as int), kept@[p].key@);
                                    let j = choose|j: int|
                                        0 <= j < all.take(i as int).len() && all.take(i as int)[j]
                                            == seq_lookup(all.take(i as int), kept@[p].key@)
                                            ->Some_0 && all.take(i as int)[j].key@ == kept@[
                                        p].key@;
                                    assert(all[j] == all.take(i as int)[j]);
                                    assert(all[j].key@ != all[i as int].key@);
                                    assert(false);
                                }
                            }
                        }
                    }
                }
                assert forall|k: Seq<char>| #[trigger] seq_lookup(kept@, k) == (match seq_lookup(
                    all.take(i + 1),
                    k,
                ) {
                    Some(sl) => if now - sl.inserted_at < self.ttl_spec() {
                        Some(sl)
                    } else {
                        None
                    },
                    None => None,
                }) by {
                    if all[i as int].key@ == k && seq_lookup(all.take(i as int), k) is Some {
                        lemma_lookup_in_seq(all.take(i as int), k);
                        let j = choose|j: int|
                            0 <= j < all.take(i as int).len() && all.take(i as int)[j]
                                == seq_lookup(all.take(i as int), k)->Some_0 && all.take(
                                i as int,
                            )[j].key@ == k;
                        assert(all[j] == all.take(i as int)[j]);
                        assert(all[j].key@ != all[i as int].key@);
                        assert(false);
                    }
                }
            }
            i = i + 1;
        }
        proof {
            assert(all.take(all.len() as int) =~= all);
        }
        self.slots = kept;
    }

    /// As `insert_at`, stamped with the wall clock.
    pub fn insert(&mut self, key: String, reply: InferenceRunReply)
        requires
            old(self).wf(),
        ensures
            final(self).wf(),
            final(self).ttl_spec() == old(self).ttl_spec(),
            final(self).spec_lookup(key@) matches Some(sl) && sl.key@ == key@ && sl.reply == reply,
            forall|k: Seq<char>| k != key@ ==> #[trigger] final(self).spec_lookup(k) == old(self).spec_lookup(k),
            exists|now: i64| #[trigger] insert_rel(*old(self), *final(self), key, reply, now),
    {
        let now = now_seconds();
        self.insert_at(key, reply, now);
    }

    /// As `get_at`, read at the wall clock.
    pub fn get(&mut self, key: &String) -> (r: Option<InferenceRunReply>)
        requires
            old(self).wf(),
        ensures
            final(self).wf(),
            final(self).ttl_spec() == old(self).ttl_spec(),
            r matches Some(rep) ==> old(self).spec_lookup(key@) matches Some(sl) && sl.reply
                == rep,
            r is None ==> (old(self).spec_lookup(key@) is None || final(self).spec_lookup(key@)
                is None),
            forall|k: Seq<char>| k != key@ ==> #[trigger] final(self).spec_lookup(k) == old(self).spec_lookup(k),
            exists|now: i64| #[trigger] get_rel(*old(self), *final(self), *key, now, r),
    {
        let now = now_seconds();
        self.get_at(key, now)
    }

    /// As `cleanup_expired_at`, swept at the wall clock.
    pub fn cleanup_expired(&mut self)
        requires
            old(self).wf(),
        ensures
            final(self).wf(),
            final(self).ttl_spec() == old(self).ttl_spec(),
            forall|k: Seq<char>|
                #[trigger] final(self).spec_lookup(k) == old(self).spec_lookup(k) || final(self).spec_lookup(k) is None,
            exists|now: i64| #[trigger] cleanup_rel(*old(self), *final(self), now),
    {
        let now = now_seconds();
        self.cleanup_expired_at(now);
    }
}

/// A slot found by lookup under its own key: walking past the earlier,
/// different keys reaches it.
proof fn lemma_lookup_skip_to_match(s: Seq<CacheSlot>, j: int)
    requires
        slot_keys_unique(s),
        0 <= j < s.len(),
    ensures
        seq_lookup(s, s[j].key@) == Some(s[j]),
{
    lemma_lookup_skip(s, s[j].key@, j);
    assert(s.skip(j)[0] == s[j]);
}

fn cache_slot_copy(slot: &CacheSlot) -> (r: CacheSlot)
    ensures
        r == *slot,
{
    CacheSlot {
        key: slot.key.clone(),
        reply: slot.reply.clone(),
        inserted_at: slot.inserted_at,
    }
}

} // verus!
