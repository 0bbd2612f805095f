use vstd::prelude::*;

verus! {

/// Sum of a sequence of amounts, as a mathematical integer.
pub open spec fn sum_amounts(s: Seq<u64>) -> int
    decreases s.len(),
{
    if s.len() == 0 {
        0
    } else {
        s[0] + sum_amounts(s.skip(1))
    }
}

/// Sum of the staked values of a sequence of (participant, stake) entries.
pub open spec fn total_staked(s: Seq<(u64, u64)>) -> int
    decreases s.len(),
{
    if s.len() == 0 {
        0
    } else {
        s[0].1 + total_staked(s.skip(1))
    }
}

/// The stake recorded for participant `k`: the value of the first entry
/// keyed by `k`, or zero when no entry carries that key.
pub open spec fn stake_of(s: Seq<(u64, u64)>, k: u64) -> u64
    decreases s.len(),
{
    if s.len() == 0 {
        0
    } else if s[0].0 == k {
        s[0].1
    } else {
        stake_of(s.skip(1), k)
    }
}

/// Whether some entry is keyed by `k`.
pub open spec fn has_key(s: Seq<(u64, u64)>, k: u64) -> bool
    decreases s.len(),
{
    if s.len() == 0 {
        false
    } else {
        s[0].0 == k || has_key(s.skip(1), k)
    }
}

/// No two entries share a key.
pub open spec fn keys_distinct(s: Seq<(u64, u64)>) -> bool {
    forall|i: int, j: int|
        0 <= i < j < s.len() ==> #[trigger] s[i].0 != #[trigger] s[j].0
}

pub proof fn lemma_sum_amounts_nonneg(s: Seq<u64>)
    ensures
        sum_amounts(s) >= 0,
    decreases s.len(),
{
    if s.len() > 0 {
        lemma_sum_amounts_nonneg(s.skip(1));
    }
}

pub proof fn lemma_sum_amounts_push(s: Seq<u64>, v: u64)
    ensures
        sum_amounts(s.push(v)) == sum_amounts(s) + v,
    decreases s.len(),
{
    let t = s.push(v);
    assert(sum_amounts(t) == t[0] + sum_amounts(t.skip(1)));
    if s.len() == 0 {
        assert(t[0] == v);
        assert(t.skip(1) =~= Seq::<u64>::empty());
        assert(sum_amounts(t.skip(1)) == 0);
    } else {
        assert(t[0] == s[0]);
        assert(t.skip(1) =~= s.skip(1).push(v));
        lemma_sum_amounts_push(s.skip(1), v);
        assert(sum_amounts(s) == s[0] + sum_amounts(s.skip(1)));
    }
}

pub proof fn lemma_sum_amounts_update(s: Seq<u64>, i: int, v: u64)
    requires
        0 <= i < s.len(),
    ensures
        sum_amounts(s.update(i, v)) == sum_amounts(s) - s[i] + v,
    decreases i,
{
    if i == 0 {
        assert(s.update(0, v).skip(1) =~= s.skip(1));
    } else {
        assert(s.update(i, v).skip(1) =~= s.skip(1).update(i - 1, v));
        lemma_sum_amounts_update(s.skip(1), i - 1, v);
    }
}

pub proof fn lemma_sum_amounts_element(s: Seq<u64>, i: int)
    requires
        0 <= i < s.len(),
    ensures
        s[i] <= sum_amounts(s),
    decreases i,
{
    lemma_sum_amounts_nonneg(s.skip(1));
    if i > 0 {
        lemma_sum_amounts_element(s.skip(1), i - 1);
    }
}

pub proof fn lemma_total_staked_nonneg(s: Seq<(u64, u64)>)
    ensures
        total_staked(s) >= 0,
    decreases s.len(),
{
    if s.len() > 0 {
        lemma_total_staked_nonneg(s.skip(1));
    }
}

pub proof fn lemma_total_staked_push(s: Seq<(u64, u64)>, e: (u64, u64))
    ensures
        total_staked(s.push(e)) == total_staked(s) + e.1,
    decreases s.len(),
{
    let t = s.push(e);
    assert(total_staked(t) == t[0].1 + total_staked(t.skip(1)));
    if s.len() == 0 {
        assert(t[0] == e);
        assert(t.skip(1) =~= Seq::<(u64, u64)>::empty());
        assert(total_staked(t.skip(1)) == 0);
    } else {
        assert(t[0] == s[0]);
        assert(t.skip(1) =~= s.skip(1).push(e));
        lemma_total_staked_push(s.skip(1), e);
        assert(total_staked(s) == s[0].1 + total_staked(s.skip(1)));
    }
}

pub proof fn lemma_total_staked_update(s: Seq<(u64, u64)>, i: int, e: (u64, u64))
    requires
        0 <= i < s.len(),
    ensures
        total_staked(s.update(i, e)) == total_staked(s) - s[i].1 + e.1,
    decreases i,
{
    if i == 0 {
        assert(s.update(0, e).skip(1) =~= s.skip(1));
    } else {
        assert(s.update(i, e).skip(1) =~= s.skip(1).update(i - 1, e));
        lemma_total_staked_update(s.skip(1), i - 1, e);
    }
}

/// A single participant's recorded stake never exceeds the total staked.
pub proof fn lemma_stake_le_total(s: Seq<(u64, u64)>, k: u64)
    ensures
        stake_of(s, k) <= total_staked(s),
    decreases s.len(),
{
    if s.len() > 0 {
        lemma_total_staked_nonneg(s.skip(1));
        lemma_stake_le_total(s.skip(1), k);
    }
}

/// Appending an entry for an absent key records that stake for the key and
/// leaves every other key's stake unchanged.
pub proof fn lemma_stake_of_push(s: Seq<(u64, u64)>, k: u64, v: u64)
    requires
        !has_key(s, k),
    ensures
        stake_of(s.push((k, v)), k) == v,
        forall|q: u64| q != k ==> stake_of(s.push((k, v)), q) == stake_of(s, q),
        forall|q: u64| has_key(s.push((k, v)), q) <==> (q == k || has_key(s, q)),
    decreases s.len(),
{
    let t = s.push((k, v));
    if s.len() == 0 {
        assert(t[0] == (k, v));
        assert(t.skip(1) =~= Seq::<(u64, u64)>::empty());
        assert forall|q: u64| q != k implies stake_of(t, q) == stake_of(s, q) by {
            assert(stake_of(t, q) == stake_of(t.skip(1), q));
        }
        assert forall|q: u64| has_key(t, q) <==> (q == k || has_key(s, q)) by {
            assert(has_key(t, q) == (t[0].0 == q || has_key(t.skip(1), q)));
        }
    } else {
        assert(t[0] == s[0]);
        assert(t.skip(1) =~= s.skip(1).push((k, v)));
        lemma_stake_of_push(s.skip(1), k, v);
        assert(s[0].0 != k);
        assert(stake_of(t, k) == stake_of(t.skip(1), k));
        assert forall|q: u64| q != k implies stake_of(t, q) == stake_of(s, q) by {
            if s[0].0 != q {
                assert(stake_of(t, q) == stake_of(t.skip(1), q));
                assert(stake_of(s, q) == stake_of(s.skip(1), q));
            }
        }
        assert forall|q: u64| has_key(t, q) <==> (q == k || has_key(s, q)) by {
            assert(has_key(t, q) == (t[0].0 == q || has_key(t.skip(1), q)));
            assert(has_key(s, q) == (s[0].0 == q || has_key(s.skip(1), q)));
        }
    }
}

/// Overwriting the first entry keyed by `k` with a new stake for `k`
/// records that stake and leaves every other key's stake unchanged.
pub proof fn lemma_stake_of_update(s: Seq<(u64, u64)>, i: int, k: u64, v: u64)
    requires
        0 <= i < s.len(),
        s[i].0 == k,
        forall|j: int| 0 <= j < i ==> s[j].0 != k,
    ensures
        stake_of(s.update(i, (k, v)), k) == v,
        forall|q: u64| q != k ==> stake_of(s.update(i, (k, v)), q) == stake_of(s, q),
        forall|q: u64| has_key(s.update(i, (k, v)), q) <==> has_key(s, q),
    decreases i,
{
    let t = s.update(i, (k, v));
    if i == 0 {
        assert(t[0] == (k, v));
        assert(t.skip(1) =~= s.skip(1));
        assert forall|q: u64| q != k implies stake_of(t, q) == stake_of(s, q) by {
            assert(stake_of(t, q) == stake_of(t.skip(1), q));
            assert(stake_of(s, q) == stake_of(s.skip(1), q));
        }
        assert forall|q: u64| has_key(t, q) <==> has_key(s, q) by {
            assert(has_key(t, q) == (t[0].0 == q || has_key(t.skip(1), q)));
            assert(has_key(s, q) == (s[0].0 == q || has_key(s.skip(1), q)));
        }
    } else {
        assert(t[0] == s[0]);
        assert(t.skip(1) =~= s.skip(1).update(i - 1, (k, v)));
        assert forall|j: int| 0 <= j < i - 1 implies s.skip(1)[j].0 != k by {
            assert(s.skip(1)[j] == s[j + 1]);
        }
        lemma_stake_of_update(s.skip(1), i - 1, k, v);
        assert(s[0].0 != k);
        assert(stake_of(t, k) == stake_of(t.skip(1), k));
        assert forall|q: u64| q != k implies stake_of(t, q) == stake_of(s, q) by {
            if s[0].0 != q {
                assert(stake_of(t, q) == stake_of(t.skip(1), q));
                assert(stake_of(s, q) == stake_of(s.skip(1), q));
            }
        }
        assert forall|q: u64| has_key(t, q) <==> has_key(s, q) by {
            assert(has_key(t, q) == (t[0].0 == q || has_key(t.skip(1), q)));
            assert(has_key(s, q) == (s[0].0 == q || has_key(s.skip(1), q)));
        }
    }
}

/// If no entry is keyed by `k`, the recorded stake for `k` is zero.
pub proof fn lemma_stake_of_absent(s: Seq<(u64, u64)>, k: u64)
    requires
        !has_key(s, k),
    ensures
        stake_of(s, k) == 0,
    decreases s.len(),
{
    if s.len() > 0 {
        lemma_stake_of_absent(s.skip(1), k);
    }
}

/// A participant's stakes summed across a sequence of stake tables, given
/// as the tables' entry sequences.
pub open spec fn stakes_across(tables: Seq<Seq<(u64, u64)>>, k: u64) -> int
    decreases tables.len(),
{
    if tables.len() == 0 {
        0
    } else {
        stake_of(tables[0], k) + stakes_across(tables.skip(1), k)
    }
}

/// Replacing one table changes a participant's across-table sum by exactly
/// the change of their stake in that table.
pub proof fn lemma_stakes_across_update(
    tables: Seq<Seq<(u64, u64)>>,
    i: int,
    t: Seq<(u64, u64)>,
    k: u64,
)
    requires
        0 <= i < tables.len(),
    ensures
        stakes_across(tables.update(i, t), k) == stakes_across(tables, k) - stake_of(
            tables[i],
            k,
        ) + stake_of(t, k),
    decreases i,
{
    if i == 0 {
        assert(tables.update(0, t).skip(1) =~= tables.skip(1));
    } else {
        assert(tables.update(i, t).skip(1) =~= tables.skip(1).update(i - 1, t));
        lemma_stakes_across_update(tables.skip(1), i - 1, t, k);
    }
}

/// Over tables that are all empty, every across-table sum is zero.
pub proof fn lemma_stakes_across_empty(tables: Seq<Seq<(u64, u64)>>, k: u64)
    requires
        forall|i: int| 0 <= i < tables.len() ==> (#[trigger] tables[i]).len() == 0,
    ensures
        stakes_across(tables, k) == 0,
    decreases tables.len(),
{
    if tables.len() > 0 {
        assert forall|i: int| 0 <= i < tables.skip(1).len() implies (#[trigger] tables.skip(
            1,
        )[i]).len() == 0 by {
            assert(tables.skip(1)[i] == tables[i + 1]);
        }
        lemma_stakes_across_empty(tables.skip(1), k);
    }
}

/// If an entry at `i` is keyed by `k`, the key is present.
pub proof fn lemma_has_key_at(s: Seq<(u64, u64)>, i: int)
    requires
        0 <= i < s.len(),
    ensures
        has_key(s, s[i].0),
    decreases i,
{
    if i > 0 {
        lemma_has_key_at(s.skip(1), i - 1);
    }
}

} // verus!
