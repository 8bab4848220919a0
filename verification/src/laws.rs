use vstd::prelude::*;

use vstd::arithmetic::div_mod::lemma_div_multiples_vanish;

use crate::contract::{
    deposit_fits, ledger_wf, spec_deposit_shares, spec_pro_rata, withdraw_fits, OptionsContract,
};
use crate::sums::{sum_locked, sum_shares};
use crate::types::PoolLedger;

verus! {

/// Law: in every well-formed state, every pool is solvent and its share
/// ledger balances: `0 <= locked_collateral <= total_liquidity`, the
/// recorded share total is exactly the sum of its providers' balances,
/// and the recorded locked collateral is exactly the sum of the
/// reservations of its live options. Every operation of
/// `OptionsContract` ensures well-formedness, so this holds at each
/// observable point.
pub proof fn law_pool_accounting(s: OptionsContract, pool_id: u64)
    requires
        s.wf(),
        s.has_pool(pool_id),
    ensures
        0 <= s.spec_ledger(pool_id).locked_collateral,
        s.spec_ledger(pool_id).locked_collateral <= s.spec_ledger(pool_id).total_liquidity,
        s.spec_ledger(pool_id).total_lp_shares as int == sum_shares(s.positions@, pool_id),
        s.spec_ledger(pool_id).locked_collateral as int == sum_locked(s.options@, pool_id),
{
    assert(s.ledgers@[pool_id as int] == s.spec_ledger(pool_id));
}

/// Law: depositing into a pool with no outstanding shares and no
/// liquidity bootstraps shares one-for-one, and immediately redeeming
/// every issued share (with no intervening activity) passes the
/// unlocked-liquidity cap and pays back exactly the deposited amount.
/// `provide_liquidity` and `withdraw_liquidity` state their outcomes with
/// the spec functions this lemma relates, so the two contracts plus this
/// lemma give the round trip. Two provisos: the pool must hold no
/// liquidity either — accrued premiums can leave a shareless pool with
/// liquidity, and the bootstrap deposit then redeems for more than it
/// paid in — and the redemption product `amount * amount` must stay
/// within `i128`, past which the withdrawal reports `ArithmeticOverflow`
/// rather than paying.
pub proof fn law_deposit_withdraw_roundtrip(l: PoolLedger, amount: i128)
    requires
        ledger_wf(l),
        l.total_lp_shares == 0,
        l.total_liquidity == 0,
        amount > 0,
        amount * amount <= i128::MAX,
    ensures
        deposit_fits(l, amount as int),
        spec_deposit_shares(amount as int, l) == amount,
        ({
            let l1 = PoolLedger {
                total_liquidity: amount,
                locked_collateral: l.locked_collateral,
                total_lp_shares: amount,
            };
            &&& withdraw_fits(l1, amount as int)
            &&& spec_pro_rata(amount as int, l1) == amount
            &&& spec_pro_rata(amount as int, l1) <= l1.total_liquidity - l1.locked_collateral
        }),
{
    assert(l.locked_collateral == 0);
    lemma_div_multiples_vanish(amount as int, amount as int);
}

} // verus!
