//! What a position is worth once its market is resolved.
//!
//! Winners share the whole pool in proportion to their stake on the winning
//! side. Where nobody backed the winning side, everybody is refunded in
//! proportion to all they staked. Division truncates, and what it leaves
//! over stays in the pool.

use vstd::arithmetic::div_mod::{
    lemma_div_is_ordered, lemma_div_multiples_vanish, lemma_div_pos_is_pos,
    lemma_fundamental_div_mod, lemma_fundamental_div_mod_converse,
};
use vstd::prelude::*;
use crate::types::{Market, Position, Side};

verus! {

/// The amount due to `position` in `market` when `winning` is the outcome.
///
/// Stakes are never negative, so each quotient is rounded down.
pub open spec fn payout_amount(market: Market, position: Position, winning: Side) -> int {
    let total_winning = market.total(winning);
    let user_winning = position.shares(winning);
    let total_staked = market.total_yes + market.total_no;
    let user_staked = position.yes_shares + position.no_shares;
    if total_winning == 0 {
        if total_staked == 0 {
            0
        } else {
            (user_staked * market.pool_balance) / total_staked
        }
    } else if user_winning == 0 {
        0
    } else {
        (user_winning * market.pool_balance) / total_winning
    }
}

/// Whether `position` holds no more on either side than `market` has taken on it.
pub open spec fn covered_by(position: Position, market: Market) -> bool {
    &&& position.yes_shares <= market.total_yes
    &&& position.no_shares <= market.total_no
}

/// Whether `market` and `position` are records that can be settled
/// against each other: both are well-formed, and the market covers the
/// position.
pub fn check_settleable(market: &Market, position: &Position) -> (settleable: bool)
    ensures
        settleable == (market.wf() && position.wf() && covered_by(*position, *market)),
{
    0 <= market.total_yes && 0 <= market.total_no && market.total_yes <= market.pool_balance
        && market.pool_balance - market.total_yes == market.total_no && 0 <= position.yes_shares
        && 0 <= position.no_shares && position.yes_shares <= market.total_yes
        && position.no_shares <= market.total_no
}

/// A whole number that fits `divisor` times into `bound` is at most the quotient.
pub proof fn lemma_quotient_is_largest(x: int, divisor: int, bound: int)
    requires
        0 < divisor,
        x * divisor <= bound,
    ensures
        x <= bound / divisor,
{
    lemma_div_is_ordered(x * divisor, bound, divisor);
    lemma_div_multiples_vanish(x, divisor);
    assert(x * divisor == divisor * x) by (nonlinear_arith);
}

/// A share of the pool is never more than the pool.
pub proof fn lemma_share_at_most_pool(part: int, pool: int, whole: int)
    requires
        0 <= part <= whole,
        0 < whole,
        0 <= pool,
    ensures
        0 <= (part * pool) / whole <= pool,
{
    assert(0 <= part * pool <= whole * pool) by (nonlinear_arith)
        requires
            0 <= part <= whole,
            0 <= pool,
    ;
    lemma_div_is_ordered(part * pool, whole * pool, whole);
    lemma_div_multiples_vanish(pool, whole);
    lemma_div_pos_is_pos(part * pool, whole);
}

/// No position is worth less than nothing, and one that its market covers
/// is worth no more than the pool.
pub proof fn lemma_payout_bounds(market: Market, position: Position, winning: Side)
    requires
        market.wf(),
        position.wf(),
    ensures
        0 <= payout_amount(market, position, winning),
        covered_by(position, market) ==> payout_amount(market, position, winning)
            <= market.pool_balance,
{
    let pool = market.pool_balance as int;
    let total_winning = market.total(winning);
    let user_winning = position.shares(winning);
    let total_staked = market.total_yes + market.total_no;
    let user_staked = position.yes_shares + position.no_shares;
    if total_winning == 0 {
        if total_staked != 0 {
            assert(0 <= user_staked * pool) by (nonlinear_arith)
                requires
                    0 <= user_staked,
                    0 <= pool,
            ;
            lemma_div_pos_is_pos(user_staked * pool, total_staked);
            if covered_by(position, market) {
                lemma_share_at_most_pool(user_staked, pool, total_staked);
            }
        }
    } else if user_winning != 0 {
        assert(0 <= user_winning * pool) by (nonlinear_arith)
            requires
                0 <= user_winning,
                0 <= pool,
        ;
        lemma_div_pos_is_pos(user_winning * pool, total_winning);
        if covered_by(position, market) {
            lemma_share_at_most_pool(user_winning, pool, total_winning);
        }
    }
}

/// The quotient of `a * b` by `c`, rounded down, where the product itself
/// may be too large for any machine integer.
///
/// The product is never formed. The loop walks the bits of `a` from the
/// lowest, and keeps both the part of the product taken so far and the
/// current multiple of `b` as a quotient and a remainder by `c`.
pub fn mul_div(a: u128, b: u128, c: u128) -> (quotient: u128)
    requires
        0 < c <= i128::MAX,
        (a * b) / (c as int) <= u128::MAX,
    ensures
        quotient == (a * b) / (c as int),
{
    let ghost product: int = a * b;
    let mut n: u128 = a;
    let mut q: u128 = 0;
    let mut r: u128 = 0;
    let mut step_q: u128 = b / c;
    let mut step_r: u128 = b % c;
    proof {
        lemma_fundamental_div_mod(b as int, c as int);
        assert(0 * c + 0 + n * (step_q * c + step_r) == product) by (nonlinear_arith)
            requires
                b == c * step_q + step_r,
                product == a * b,
                n == a,
        ;
    }
    while n > 0
        invariant
            0 < c <= i128::MAX,
            product / (c as int) <= u128::MAX,
            r < c,
            step_r < c,
            q * c + r + n * (step_q * c + step_r) == product,
        decreases n,
    {
        let ghost n0: int = n as int;
        let ghost q0: int = q as int;
        let ghost r0: int = r as int;
        let ghost sq0: int = step_q as int;
        let ghost sr0: int = step_r as int;
        let ghost step: int = sq0 * c + sr0;
        let ghost taken: int = q0 * c + r0;
        assert(0 <= step && 0 <= taken) by (nonlinear_arith)
            requires
                step == sq0 * c + sr0,
                taken == q0 * c + r0,
                0 <= sq0,
                0 <= sr0,
                0 <= q0,
                0 <= r0,
                0 < c,
        ;
        if n % 2 == 1 {
            let sum: u128 = r + step_r;
            let carry: u128 = if sum >= c { 1 } else { 0 };
            proof {
                assert(taken + step <= product) by (nonlinear_arith)
                    requires
                        taken + n0 * step == product,
                        1 <= n0,
                        0 <= step,
                ;
                assert((q0 + sq0 + carry) * c <= taken + step) by (nonlinear_arith)
                    requires
                        taken == q0 * c + r0,
                        step == sq0 * c + sr0,
                        carry == 1 ==> r0 + sr0 >= c,
                        carry == 0 || carry == 1,
                        0 <= r0 + sr0,
                        0 < c,
                ;
                lemma_quotient_is_largest(q0 + sq0 + carry, c as int, product);
            }
            q = q + step_q + carry;
            r = if sum >= c { sum - c } else { sum };
            assert(q * c + r == taken + step) by (nonlinear_arith)
                requires
                    taken == q0 * c + r0,
                    step == sq0 * c + sr0,
                    q == q0 + sq0 + carry,
                    r == r0 + sr0 - carry * c,
            ;
        }
        n = n / 2;
        if n > 0 {
            let twice: u128 = step_r + step_r;
            let carry: u128 = if twice >= c { 1 } else { 0 };
            proof {
                assert(2 * step <= product) by (nonlinear_arith)
                    requires
                        taken + n0 * step == product,
                        0 <= taken,
                        2 <= n0,
                        0 <= step,
                ;
                assert((sq0 + sq0 + carry) * c <= 2 * step) by (nonlinear_arith)
                    requires
                        step == sq0 * c + sr0,
                        carry == 1 ==> sr0 + sr0 >= c,
                        carry == 0 || carry == 1,
                        0 <= sr0,
                        0 < c,
                ;
                lemma_quotient_is_largest(sq0 + sq0 + carry, c as int, product);
            }
            step_q = step_q + step_q + carry;
            step_r = if twice >= c { twice - c } else { twice };
            assert(step_q * c + step_r == 2 * step) by (nonlinear_arith)
                requires
                    step == sq0 * c + sr0,
                    step_q == sq0 + sq0 + carry,
                    step_r == sr0 + sr0 - carry * c,
            ;
        }
        assert(q * c + r + n * (step_q * c + step_r) == product) by (nonlinear_arith)
            requires
                taken + n0 * step == product,
                q * c + r == taken + (n0 % 2) * step,
                n0 == 2 * n + n0 % 2,
                n > 0 ==> step_q * c + step_r == 2 * step,
                n == 0 ==> step_q * c + step_r == step,
        ;
    }
    proof {
        assert(product == q * c + r) by (nonlinear_arith)
            requires
                q * c + r + n * (step_q * c + step_r) == product,
                n == 0,
        ;
        lemma_fundamental_div_mod_converse(product, c as int, q as int, r as int);
    }
    q
}

/// The amount due to `position` in `market` when `winning` is the outcome.
pub fn compute_payout(market: &Market, position: &Position, winning: Side) -> (payout: i128)
    requires
        market.wf(),
        position.wf(),
        payout_amount(*market, *position, winning) <= i128::MAX,
    ensures
        payout == payout_amount(*market, *position, winning),
{
    let total_winning: i128 = match winning {
        Side::Yes => market.total_yes,
        Side::No => market.total_no,
    };
    let user_winning: i128 = match winning {
        Side::Yes => position.yes_shares,
        Side::No => position.no_shares,
    };
    if total_winning == 0 {
        if market.pool_balance == 0 {
            0
        } else {
            let user_staked: u128 = position.yes_shares as u128 + position.no_shares as u128;
            mul_div(user_staked, market.pool_balance as u128, market.pool_balance as u128) as i128
        }
    } else if user_winning == 0 {
        0
    } else {
        mul_div(user_winning as u128, market.pool_balance as u128, total_winning as u128) as i128
    }
}

} // verus!
