use vstd::prelude::*;

use crate::types::{LpShare, OptionData};

verus! {

/// What one share entry contributes to pool `pool`'s outstanding total.
pub open spec fn share_contrib(e: LpShare, pool: u64) -> int {
    if e.pool_id == pool {
        e.shares as int
    } else {
        0
    }
}

/// Sum of every provider share balance recorded for pool `pool`.
pub open spec fn sum_shares(s: Seq<LpShare>, pool: u64) -> int
    decreases s.len(),
{
    if s.len() == 0 {
        0
    } else {
        sum_shares(s.drop_last(), pool) + share_contrib(s.last(), pool)
    }
}

/// The balance recorded for `(pool, provider)`: the value at its entry, or
/// zero when no entry exists. When entries are unique this is well defined;
/// the definition itself takes the latest entry.
pub open spec fn shares_of(s: Seq<LpShare>, pool: u64, provider: u64) -> int
    decreases s.len(),
{
    if s.len() == 0 {
        0
    } else if s.last().pool_id == pool && s.last().provider == provider {
        s.last().shares as int
    } else {
        shares_of(s.drop_last(), pool, provider)
    }
}

/// No two entries record the same (pool, provider) pair.
pub open spec fn entries_unique(s: Seq<LpShare>) -> bool {
    forall|i: int, j: int| #![trigger s[i], s[j]]
        0 <= i < j < s.len() ==> !(s[i].pool_id == s[j].pool_id && s[i].provider == s[j].provider)
}

/// Every recorded balance is non-negative.
pub open spec fn entries_nonneg(s: Seq<LpShare>) -> bool {
    forall|i: int| #![trigger s[i]] 0 <= i < s.len() ==> s[i].shares >= 0
}

pub proof fn lemma_sum_shares_nonneg(s: Seq<LpShare>, pool: u64)
    requires
        entries_nonneg(s),
    ensures
        sum_shares(s, pool) >= 0,
    decreases s.len(),
{
    if s.len() > 0 {
        assert forall|i: int| 0 <= i < s.drop_last().len() implies #[trigger] s.drop_last()[i].shares
            >= 0 by {
            assert(s.drop_last()[i] == s[i]);
        }
        lemma_sum_shares_nonneg(s.drop_last(), pool);
        assert(s.last().shares >= 0);
    }
}

pub proof fn lemma_sum_shares_push(s: Seq<LpShare>, e: LpShare, pool: u64)
    ensures
        sum_shares(s.push(e), pool) == sum_shares(s, pool) + share_contrib(e, pool),
{
    assert(s.push(e).drop_last() =~= s);
    assert(s.push(e).last() == e);
}

pub proof fn lemma_sum_shares_update(s: Seq<LpShare>, k: int, e: LpShare, pool: u64)
    requires
        0 <= k < s.len(),
    ensures
        sum_shares(s.update(k, e), pool) == sum_shares(s, pool) - share_contrib(s[k], pool)
            + share_contrib(e, pool),
    decreases s.len(),
{
    let t = s.update(k, e);
    if k == s.len() - 1 {
        assert(t.drop_last() =~= s.drop_last());
        assert(t.last() == e);
    } else {
        assert(t.drop_last() =~= s.drop_last().update(k, e));
        assert(t.last() == s.last());
        assert(s.drop_last()[k] == s[k]);
        lemma_sum_shares_update(s.drop_last(), k, e, pool);
    }
}

pub proof fn lemma_shares_of_le_sum(s: Seq<LpShare>, pool: u64, provider: u64)
    requires
        entries_nonneg(s),
    ensures
        0 <= shares_of(s, pool, provider) <= sum_shares(s, pool),
    decreases s.len(),
{
    if s.len() > 0 {
        assert forall|i: int| 0 <= i < s.drop_last().len() implies #[trigger] s.drop_last()[i].shares
            >= 0 by {
            assert(s.drop_last()[i] == s[i]);
        }
        lemma_shares_of_le_sum(s.drop_last(), pool, provider);
        lemma_sum_shares_nonneg(s.drop_last(), pool);
        assert(s.last().shares >= 0);
    }
}

/// The entry at index `k` is what `shares_of` reports for its pair.
pub proof fn lemma_shares_of_at(s: Seq<LpShare>, k: int)
    requires
        entries_unique(s),
        0 <= k < s.len(),
    ensures
        shares_of(s, s[k].pool_id, s[k].provider) == s[k].shares as int,
    decreases s.len(),
{
    if k < s.len() - 1 {
        assert(!(s[k].pool_id == s[s.len() - 1].pool_id && s[k].provider == s[s.len()
            - 1].provider));
        assert forall|i: int, j: int| 0 <= i < j < s.drop_last().len() implies !(
        (#[trigger] s.drop_last()[i]).pool_id == (#[trigger] s.drop_last()[j]).pool_id
            && s.drop_last()[i].provider == s.drop_last()[j].provider) by {
            assert(s.drop_last()[i] == s[i]);
            assert(s.drop_last()[j] == s[j]);
        }
        assert(s.drop_last()[k] == s[k]);
        lemma_shares_of_at(s.drop_last(), k);
    }
}

pub proof fn lemma_shares_of_absent(s: Seq<LpShare>, pool: u64, provider: u64)
    requires
        forall|i: int| #![trigger s[i]]
            0 <= i < s.len() ==> !(s[i].pool_id == pool && s[i].provider == provider),
    ensures
        shares_of(s, pool, provider) == 0,
    decreases s.len(),
{
    if s.len() > 0 {
        assert forall|i: int| 0 <= i < s.drop_last().len() implies !((#[trigger] s.drop_last()[i]).pool_id
            == pool && s.drop_last()[i].provider == provider) by {
            assert(s.drop_last()[i] == s[i]);
        }
        lemma_shares_of_absent(s.drop_last(), pool, provider);
    }
}

/// A pool no entry belongs to has a zero share total.
pub proof fn lemma_sum_shares_absent(s: Seq<LpShare>, pool: u64)
    requires
        forall|i: int| #![trigger s[i]] 0 <= i < s.len() ==> s[i].pool_id != pool,
    ensures
        sum_shares(s, pool) == 0,
    decreases s.len(),
{
    if s.len() > 0 {
        assert forall|i: int| 0 <= i < s.drop_last().len() implies (#[trigger] s.drop_last()[i]).pool_id
            != pool by {
            assert(s.drop_last()[i] == s[i]);
        }
        lemma_sum_shares_absent(s.drop_last(), pool);
    }
}

/// Updating the entry at `k` without changing its pair changes `shares_of`
/// for that pair alone.
pub proof fn lemma_shares_of_update(
    s: Seq<LpShare>,
    k: int,
    e: LpShare,
    pool: u64,
    provider: u64,
)
    requires
        entries_unique(s),
        0 <= k < s.len(),
        s[k].pool_id == e.pool_id,
        s[k].provider == e.provider,
    ensures
        shares_of(s.update(k, e), pool, provider) == if e.pool_id == pool && e.provider == provider {
            e.shares as int
        } else {
            shares_of(s, pool, provider)
        },
    decreases s.len(),
{
    let t = s.update(k, e);
    if k == s.len() - 1 {
        assert(t.drop_last() =~= s.drop_last());
        assert(t.last() == e);
    } else {
        assert(t.drop_last() =~= s.drop_last().update(k, e));
        assert(t.last() == s.last());
        assert(s.drop_last()[k] == s[k]);
        assert(!(s[k].pool_id == s[s.len() - 1].pool_id && s[k].provider == s[s.len()
            - 1].provider));
        assert forall|i: int, j: int| 0 <= i < j < s.drop_last().len() implies !(
        (#[trigger] s.drop_last()[i]).pool_id == (#[trigger] s.drop_last()[j]).pool_id
            && s.drop_last()[i].provider == s.drop_last()[j].provider) by {
            assert(s.drop_last()[i] == s[i]);
            assert(s.drop_last()[j] == s[j]);
        }
        lemma_shares_of_update(s.drop_last(), k, e, pool, provider);
    }
}

/// Appending an entry changes `shares_of` for its pair alone.
pub proof fn lemma_shares_of_push(s: Seq<LpShare>, e: LpShare, pool: u64, provider: u64)
    ensures
        shares_of(s.push(e), pool, provider) == if e.pool_id == pool && e.provider == provider {
            e.shares as int
        } else {
            shares_of(s, pool, provider)
        },
{
    assert(s.push(e).drop_last() =~= s);
    assert(s.push(e).last() == e);
}

/// What one option contributes to pool `pool`'s locked collateral: its
/// reserved collateral while it is live, nothing once it is settled.
pub open spec fn locked_contrib(o: OptionData, pool: u64) -> int {
    if o.pool_id == pool && o.is_active {
        o.collateral as int
    } else {
        0
    }
}

/// Collateral reserved for the live options of pool `pool`.
pub open spec fn sum_locked(s: Seq<OptionData>, pool: u64) -> int
    decreases s.len(),
{
    if s.len() == 0 {
        0
    } else {
        sum_locked(s.drop_last(), pool) + locked_contrib(s.last(), pool)
    }
}

/// Every option's reserved collateral is non-negative.
pub open spec fn collaterals_nonneg(s: Seq<OptionData>) -> bool {
    forall|i: int| #![trigger s[i]] 0 <= i < s.len() ==> s[i].collateral >= 0
}

pub proof fn lemma_sum_locked_nonneg(s: Seq<OptionData>, pool: u64)
    requires
        collaterals_nonneg(s),
    ensures
        sum_locked(s, pool) >= 0,
    decreases s.len(),
{
    if s.len() > 0 {
        assert forall|i: int| 0 <= i < s.drop_last().len() implies #[trigger] s.drop_last()[i].collateral
            >= 0 by {
            assert(s.drop_last()[i] == s[i]);
        }
        lemma_sum_locked_nonneg(s.drop_last(), pool);
        assert(s.last().collateral >= 0);
    }
}

pub proof fn lemma_sum_locked_push(s: Seq<OptionData>, e: OptionData, pool: u64)
    ensures
        sum_locked(s.push(e), pool) == sum_locked(s, pool) + locked_contrib(e, pool),
{
    assert(s.push(e).drop_last() =~= s);
    assert(s.push(e).last() == e);
}

pub proof fn lemma_sum_locked_update(s: Seq<OptionData>, k: int, e: OptionData, pool: u64)
    requires
        0 <= k < s.len(),
    ensures
        sum_locked(s.update(k, e), pool) == sum_locked(s, pool) - locked_contrib(s[k], pool)
            + locked_contrib(e, pool),
    decreases s.len(),
{
    let t = s.update(k, e);
    if k == s.len() - 1 {
        assert(t.drop_last() =~= s.drop_last());
        assert(t.last() == e);
    } else {
        assert(t.drop_last() =~= s.drop_last().update(k, e));
        assert(t.last() == s.last());
        assert(s.drop_last()[k] == s[k]);
        lemma_sum_locked_update(s.drop_last(), k, e, pool);
    }
}

/// A pool no option belongs to has no locked collateral.
pub proof fn lemma_sum_locked_absent(s: Seq<OptionData>, pool: u64)
    requires
        forall|i: int| #![trigger s[i]] 0 <= i < s.len() ==> s[i].pool_id != pool,
    ensures
        sum_locked(s, pool) == 0,
    decreases s.len(),
{
    if s.len() > 0 {
        assert forall|i: int| 0 <= i < s.drop_last().len() implies (#[trigger] s.drop_last()[i]).pool_id
            != pool by {
            assert(s.drop_last()[i] == s[i]);
        }
        lemma_sum_locked_absent(s.drop_last(), pool);
    }
}

/// A single live option never holds more than its pool's locked total.
pub proof fn lemma_live_le_sum_locked(s: Seq<OptionData>, k: int)
    requires
        collaterals_nonneg(s),
        0 <= k < s.len(),
        s[k].is_active,
    ensures
        s[k].collateral as int <= sum_locked(s, s[k].pool_id),
    decreases s.len(),
{
    if k == s.len() - 1 {
        lemma_sum_locked_nonneg(s.drop_last(), s[k].pool_id);
        assert forall|i: int| 0 <= i < s.drop_last().len() implies #[trigger] s.drop_last()[i].collateral
            >= 0 by {
            assert(s.drop_last()[i] == s[i]);
        }
    } else {
        assert forall|i: int| 0 <= i < s.drop_last().len() implies #[trigger] s.drop_last()[i].collateral
            >= 0 by {
            assert(s.drop_last()[i] == s[i]);
        }
        assert(s.drop_last()[k] == s[k]);
        lemma_live_le_sum_locked(s.drop_last(), k);
        assert(locked_contrib(s.last(), s[k].pool_id) >= 0);
    }
}

} // verus!
