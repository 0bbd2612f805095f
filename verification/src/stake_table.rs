use vstd::prelude::*;

use crate::sums::{
    has_key, keys_distinct, lemma_has_key_at, lemma_stake_le_total, lemma_stake_of_push,
    lemma_stake_of_update, lemma_total_staked_nonneg, lemma_total_staked_push,
    lemma_total_staked_update, stake_of, total_staked,
};

verus! {

/// A table of cumulative stakes, one entry per participant.
///
/// The table is total: a participant without an entry has a stake of zero,
/// matching ledgers whose storage reads a missing key as the default value.
pub struct StakeTable {
    entries: Vec<(u64, u64)>,
}

impl View for StakeTable {
    type V = Seq<(u64, u64)>;

    closed spec fn view(&self) -> Seq<(u64, u64)> {
        self.entries@
    }
}

impl StakeTable {
    /// Each participant has at most one entry.
    pub open spec fn wf(&self) -> bool {
        keys_distinct(self@)
    }

    pub fn new() -> (r: Self)
        ensures
            r.wf(),
            r@ == Seq::<(u64, u64)>::empty(),
    {
        let r = StakeTable { entries: Vec::new() };
        proof {
            assert(r@ =~= Seq::<(u64, u64)>::empty());
        }
        r
    }

    /// The cumulative stake recorded for `participant` (zero if none).
    pub fn amount_of(&self, participant: u64) -> (r: u64)
        ensures
            r == stake_of(self@, participant),
    {
        let n = self.entries.len();
        let mut i: usize = 0;
        proof {
            assert(self@.skip(0) =~= self@);
        }
        while i < n
            invariant
                i <= n,
                n == self.entries.len(),
                stake_of(self@, participant) == stake_of(self@.skip(i as int), participant),
            decreases n - i,
        {
            if self.entries[i].0 == participant {
                proof {
                    assert(self@.skip(i as int)[0] == self@[i as int]);
                }
                return self.entries[i].1;
            }
            proof {
                assert(self@.skip(i as int)[0] == self@[i as int]);
                assert(self@.skip(i as int).skip(1) =~= self@.skip(i as int + 1));
            }
            i = i + 1;
        }
        proof {
            assert(self@.skip(n as int) =~= Seq::<(u64, u64)>::empty());
        }
        0
    }

    /// Adds `amount` to the cumulative stake of `participant`.
    pub fn add(&mut self, participant: u64, amount: u64) -> (sum: u64)
        requires
            old(self).wf(),
            total_staked(old(self)@) + amount <= u64::MAX,
        ensures
            final(self).wf(),
            sum == stake_of(old(self)@, participant) + amount,
            stake_of(final(self)@, participant) == sum,
            forall|q: u64|
                q != participant ==> stake_of(final(self)@, q) == stake_of(old(self)@, q),
            total_staked(final(self)@) == total_staked(old(self)@) + amount,
            forall|q: u64|
                has_key(final(self)@, q) <==> (q == participant || has_key(old(self)@, q)),
    {
        let ghost s0 = self@;
        let n = self.entries.len();
        let mut i: usize = 0;
        while i < n
            invariant
                i <= n,
                n == self.entries.len(),
                self@ == s0,
                s0 == old(self)@,
                keys_distinct(s0),
                total_staked(s0) + amount <= u64::MAX,
                forall|j: int| 0 <= j < i ==> s0[j].0 != participant,
            decreases n - i,
        {
            if self.entries[i].0 == participant {
                let prev = self.entries[i].1;
                proof {
                    lemma_entry_le_total(s0, i as int);
                    assert(prev == s0[i as int].1);
                    assert(prev + amount <= u64::MAX);
                }
                let updated = prev + amount;
                self.entries[i] = (participant, updated);
                proof {
                    lemma_stake_of_update(s0, i as int, participant, updated);
                    lemma_total_staked_update(s0, i as int, (participant, updated));
                    lemma_has_key_at(s0, i as int);
                    assert(stake_of(s0, participant) == s0[i as int].1) by {
                        lemma_first_match(s0, i as int, participant);
                    }
                    assert(keys_distinct(s0));
                    assert forall|a: int, b: int|
                        0 <= a < b < self@.len() implies #[trigger] self@[a].0
                        != #[trigger] self@[b].0 by {
                        assert(self@ == s0.update(i as int, (participant, updated)));
                        assert(self@[a].0 == s0[a].0);
                        assert(self@[b].0 == s0[b].0);
                        assert(s0[a].0 != s0[b].0);
                    }
                }
                return updated;
            }
            i = i + 1;
        }
        proof {
            assert(!has_key(s0, participant)) by {
                if has_key(s0, participant) {
                    lemma_has_key_index(s0, participant);
                }
            }
            crate::sums::lemma_stake_of_absent(s0, participant);
        }
        self.entries.push((participant, amount));
        proof {
            assert(self@ == s0.push((participant, amount)));
            lemma_stake_of_push(s0, participant, amount);
            lemma_total_staked_push(s0, (participant, amount));
            assert forall|a: int, b: int|
                0 <= a < b < self@.len() implies #[trigger] self@[a].0
                != #[trigger] self@[b].0 by {
                if b < s0.len() {
                    assert(s0[a].0 != s0[b].0);
                } else {
                    assert(self@[b].0 == participant);
                    lemma_has_key_at(s0, a);
                }
            }
        }
        amount
    }
}

/// An entry's stake is at most the total staked.
proof fn lemma_entry_le_total(s: Seq<(u64, u64)>, i: int)
    requires
        0 <= i < s.len(),
    ensures
        s[i].1 <= total_staked(s),
    decreases i,
{
    lemma_total_staked_nonneg(s.skip(1));
    if i > 0 {
        lemma_entry_le_total(s.skip(1), i - 1);
    }
}

/// When the entries before `i` miss `k` and entry `i` carries it, the
/// recorded stake for `k` is entry `i`'s stake.
proof fn lemma_first_match(s: Seq<(u64, u64)>, i: int, k: u64)
    requires
        0 <= i < s.len(),
        s[i].0 == k,
        forall|j: int| 0 <= j < i ==> s[j].0 != k,
    ensures
        stake_of(s, k) == s[i].1,
    decreases i,
{
    if i > 0 {
        assert forall|j: int| 0 <= j < i - 1 implies s.skip(1)[j].0 != k by {
            assert(s.skip(1)[j] == s[j + 1]);
        }
        lemma_first_match(s.skip(1), i - 1, k);
    }
}

/// A present key is carried by some entry.
proof fn lemma_has_key_index(s: Seq<(u64, u64)>, k: u64)
    requires
        has_key(s, k),
    ensures
        exists|i: int| 0 <= i < s.len() && #[trigger] s[i].0 == k,
    decreases s.len(),
{
    if s[0].0 == k {
        assert(s[0].0 == k);
    } else {
        lemma_has_key_index(s.skip(1), k);
        let i = choose|i: int| 0 <= i < s.skip(1).len() && #[trigger] s.skip(1)[i].0 == k;
        assert(s[i + 1].0 == k);
    }
}

} // verus!
