//! Properties of the pool model that hold across operations.
use crate::arith::{
    ceil_div, lemma_ceil_div_at_most, lemma_ceil_div_bounds, lemma_ceil_div_exact,
    lemma_floor_div_bounds,
};
use crate::model::{max_amount, PoolOp, PoolView, SCALE};
use vstd::arithmetic::div_mod::lemma_div_is_ordered;
use vstd::prelude::*;

verus! {

/// A deposit mints a nonnegative number of shares.
pub proof fn lemma_minted_nonnegative(s: PoolView, amount: int)
    requires
        s.wf(),
        0 <= amount,
        s.total_lp_tokens > 0 ==> s.token_reserve > 0,
    ensures
        0 <= s.minted(amount),
{
    if s.total_lp_tokens > 0 {
        let t = s.total_lp_tokens;
        assert(0 <= amount * t) by (nonlinear_arith)
            requires
                0 <= amount,
                0 < t,
        ;
        lemma_floor_div_bounds(amount * t, s.token_reserve);
    }
}

/// Burning at most the whole LP supply pays out at most each reserve, and
/// burning all of it pays out exactly each reserve.
pub proof fn lemma_withdraw_within_reserves(s: PoolView, lp_tokens: int)
    requires
        s.wf(),
        0 < s.total_lp_tokens,
        0 <= lp_tokens <= s.total_lp_tokens,
    ensures
        0 <= s.withdrawn_tokens(lp_tokens) <= s.token_reserve,
        0 <= s.withdrawn_staked(lp_tokens) <= s.staked_token_reserve,
        lp_tokens == s.total_lp_tokens ==> s.withdrawn_tokens(lp_tokens) == s.token_reserve,
        lp_tokens == s.total_lp_tokens ==> s.withdrawn_staked(lp_tokens) == s.staked_token_reserve,
{
    lemma_share_of_reserve(s.token_reserve, lp_tokens, s.total_lp_tokens);
    lemma_share_of_reserve(s.staked_token_reserve, lp_tokens, s.total_lp_tokens);
}

/// `ceil_div(lp * r, t)` lies in `0..=r` for `lp <= t`, and is `r` for `lp == t`.
proof fn lemma_share_of_reserve(r: int, lp: int, t: int)
    requires
        0 <= r,
        0 < t,
        0 <= lp <= t,
    ensures
        0 <= ceil_div(lp * r, t) <= r,
        lp == t ==> ceil_div(lp * r, t) == r,
{
    assert(0 <= lp * r <= r * t) by (nonlinear_arith)
        requires
            0 <= r,
            0 <= lp <= t,
    ;
    lemma_ceil_div_bounds(lp * r, t);
    lemma_ceil_div_at_most(lp * r, t, r);
    if lp == t {
        assert(lp * r == r * t) by (nonlinear_arith)
            requires
                lp == t,
        ;
        lemma_ceil_div_exact(r, t);
    }
}

/// The fee kept on a swap lies between nothing and the whole gross value.
pub proof fn lemma_fee_within_gross(s: PoolView, staked_amount: int)
    requires
        s.wf(),
        0 <= staked_amount,
    ensures
        0 <= s.gross_amount(staked_amount),
        0 <= s.fee_amount(staked_amount) <= s.gross_amount(staked_amount),
        0 <= s.received(staked_amount) <= s.gross_amount(staked_amount),
{
    let scale = SCALE as int;
    let price = s.price;
    assert(0 <= staked_amount * price) by (nonlinear_arith)
        requires
            0 <= staked_amount,
            0 <= price,
    ;
    lemma_floor_div_bounds(staked_amount * price, scale);
    let gross = s.gross_amount(staked_amount);
    let fee = s.fee();
    lemma_fee_in_range(s, s.token_reserve);
    assert(0 <= gross * fee <= gross * scale) by (nonlinear_arith)
        requires
            0 <= gross,
            0 <= fee <= scale,
    ;
    lemma_floor_div_bounds(gross * fee, scale);
    let kept = s.fee_amount(staked_amount);
    assert(kept <= gross) by (nonlinear_arith)
        requires
            0 < scale,
            kept * scale <= gross * fee,
            gross * fee <= gross * scale,
    ;
}

/// Every operation that succeeds leaves a well-formed pool.
pub proof fn lemma_step_preserves_wf(s: PoolView, op: PoolOp)
    requires
        s.wf(),
        s.step(op) is Some,
    ensures
        s.step(op).unwrap().wf(),
{
    match op {
        PoolOp::AddLiquidity(amount) => {
            lemma_minted_nonnegative(s, amount as int);
        },
        PoolOp::RemoveLiquidity(lp_tokens) => {
            lemma_withdraw_within_reserves(s, lp_tokens as int);
        },
        PoolOp::Swap(staked_amount) => {
            lemma_fee_within_gross(s, staked_amount as int);
        },
    }
}

/// No sequence of operations that the pool accepts drives a reserve or the
/// LP supply below zero: every state that it reaches is well formed.
pub proof fn lemma_reserves_never_negative(s: PoolView, ops: Seq<PoolOp>)
    requires
        s.wf(),
    ensures
        s.run(ops) matches Some(t) ==> t.wf() && 0 <= t.token_reserve && 0
            <= t.staked_token_reserve && 0 <= t.total_lp_tokens,
    decreases ops.len(),
{
    if ops.len() > 0 {
        if let Some(next) = s.step(ops[0]) {
            lemma_step_preserves_wf(s, ops[0]);
            lemma_reserves_never_negative(next, ops.drop_first());
        }
    }
}

/// The first deposit into a pool without LP shares mints exactly the
/// deposit, and leaves both the reserve and the LP supply equal to it.
pub proof fn lemma_first_deposit(s: PoolView, amount: nat)
    requires
        s.wf(),
        s.total_lp_tokens == 0,
        amount <= max_amount(),
    ensures
        s.step(PoolOp::AddLiquidity(amount)) == Some(s.after_deposit(amount as int)),
        s.minted(amount as int) == amount,
        s.after_deposit(amount as int).token_reserve == amount,
        s.after_deposit(amount as int).total_lp_tokens == amount,
{
}

/// The fee discount is nonnegative and never shrinks as the reserve grows
/// from the liquidity target on; at the target it is zero.
proof fn lemma_fee_discount_ordered(s: PoolView, lower: int, higher: int)
    requires
        s.wf(),
        s.liquidity_target <= lower <= higher,
    ensures
        0 <= s.fee_discount(lower) <= s.fee_discount(higher),
        lower == s.liquidity_target ==> s.fee_discount(lower) == 0,
{
    let spread = s.fee_max - s.fee_min;
    let target = s.liquidity_target;
    assert(0 <= spread * (lower - target) <= spread * (higher - target)) by (nonlinear_arith)
        requires
            0 <= spread,
            target <= lower <= higher,
    ;
    lemma_floor_div_bounds(spread * (lower - target), target);
    lemma_div_is_ordered(spread * (lower - target), spread * (higher - target), target);
    if lower == target {
        assert(spread * (lower - target) == 0) by (nonlinear_arith)
            requires
                lower == target,
        ;
    }
}

/// The fee rate always lies between `fee_min` and `fee_max`.
pub proof fn lemma_fee_in_range(s: PoolView, reserve: int)
    requires
        s.wf(),
    ensures
        s.fee_min <= s.fee_at(reserve) <= s.fee_max,
{
    if s.liquidity_target <= reserve {
        lemma_fee_discount_ordered(s, reserve, reserve);
    }
}

/// The fee rate never rises as the underlying reserve grows; it is the
/// maximum rate whenever the reserve is below the liquidity target, and
/// still the maximum at the target itself.
pub proof fn lemma_fee_curve(s: PoolView, lower: int, higher: int)
    requires
        s.wf(),
        lower <= higher,
    ensures
        s.fee_at(higher) <= s.fee_at(lower),
        lower < s.liquidity_target ==> s.fee_at(lower) == s.fee_max,
        s.fee_at(s.liquidity_target) == s.fee_max,
{
    lemma_fee_in_range(s, higher);
    lemma_fee_discount_ordered(s, s.liquidity_target, s.liquidity_target);
    if s.liquidity_target <= lower {
        lemma_fee_discount_ordered(s, lower, higher);
    }
}

/// A swap of `staked_amount` adds exactly that amount to the staked reserve,
/// takes exactly what it pays out from the underlying reserve, and never
/// pays out more than the gross value `staked_amount * price / SCALE`.
pub proof fn lemma_swap_conservation(s: PoolView, staked_amount: nat)
    requires
        s.wf(),
        s.step(PoolOp::Swap(staked_amount)) is Some,
    ensures
        ({
            let t = s.step(PoolOp::Swap(staked_amount)).unwrap();
            &&& t.staked_token_reserve == s.staked_token_reserve + staked_amount
            &&& t.token_reserve == s.token_reserve - s.received(staked_amount as int)
            &&& t.total_lp_tokens == s.total_lp_tokens
            &&& 0 <= s.received(staked_amount as int) <= staked_amount * s.price / (SCALE as int)
        }),
{
    lemma_fee_within_gross(s, staked_amount as int);
}

/// Depositing `amount` into a pool that has LP shares and at once burning
/// the shares minted for it pays back at most `amount`. The shortfall times
/// the LP supply after the deposit stays below the reserve before it, so it
/// is at most one token wherever that reserve is at most twice the supply.
pub proof fn lemma_deposit_then_withdraw(s: PoolView, amount: nat)
    requires
        s.wf(),
        s.total_lp_tokens > 0,
        s.token_reserve > 0,
        s.can_deposit(amount as int),
    ensures
        ({
            let minted = s.minted(amount as int);
            let t = s.after_deposit(amount as int);
            let paid = t.withdrawn_tokens(minted);
            &&& s.step(PoolOp::AddLiquidity(amount)) == Some(t)
            &&& t.step(PoolOp::RemoveLiquidity(minted as nat)) == Some(t.after_withdraw(minted))
            &&& paid <= amount
            &&& (amount - paid) * t.total_lp_tokens < s.token_reserve
            &&& s.token_reserve <= 2 * t.total_lp_tokens ==> amount - 1 <= paid
        }),
{
    let a = amount as int;
    let r = s.token_reserve;
    let lp = s.total_lp_tokens;
    let m = s.minted(a);
    let t = s.after_deposit(a);
    let lp2 = t.total_lp_tokens;
    let r2 = t.token_reserve;
    lemma_minted_nonnegative(s, a);
    assert(0 <= a * lp) by (nonlinear_arith)
        requires
            0 <= a,
            0 < lp,
    ;
    lemma_floor_div_bounds(a * lp, r);
    assert(m * r2 == m * r + m * a && a * lp2 == a * lp + m * a) by (nonlinear_arith)
        requires
            r2 == r + a,
            lp2 == lp + m,
    ;
    assert(0 <= m * r2) by (nonlinear_arith)
        requires
            0 <= m,
            0 <= r2,
    ;
    lemma_ceil_div_bounds(m * r2, lp2);
    lemma_ceil_div_at_most(m * r2, lp2, a);
    let paid = t.withdrawn_tokens(m);
    assert((a - paid) * lp2 == a * lp2 - paid * lp2) by (nonlinear_arith);
    if r <= 2 * lp2 {
        assert(a - 1 <= paid) by (nonlinear_arith)
            requires
                0 < lp2,
                (a - paid) * lp2 < r,
                r <= 2 * lp2,
        ;
    }
    lemma_step_preserves_wf(s, PoolOp::AddLiquidity(amount));
}

} // verus!
