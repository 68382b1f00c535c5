//! The pool as mathematics: its state over unbounded integers, the amounts
//! that each operation moves, and the state that each operation leaves.
use crate::arith::ceil_div;
use vstd::prelude::*;

verus! {

/// The fixed-point scale of prices and fee rates: `SCALE` stands for 1.0.
pub const SCALE: u64 = 1_000_000;

/// The largest amount that a reserve or the LP supply can hold.
pub open spec fn max_amount() -> int {
    u64::MAX as int
}

/// Parameters that a pool accepts: a positive liquidity target and fee rates
/// with `fee_min <= fee_max <= 1.0`.
pub open spec fn valid_config(fee_min: int, fee_max: int, liquidity_target: int) -> bool {
    &&& 0 <= fee_min <= fee_max <= SCALE
    &&& 0 < liquidity_target
}

/// The state of a pool, with every amount as an unbounded integer.
pub struct PoolView {
    pub token_reserve: int,
    pub staked_token_reserve: int,
    pub total_lp_tokens: int,
    pub price: int,
    pub fee_min: int,
    pub fee_max: int,
    pub liquidity_target: int,
}

/// One mutating operation on a pool, with its argument.
pub enum PoolOp {
    AddLiquidity(nat),
    RemoveLiquidity(nat),
    Swap(nat),
}

impl PoolView {
    /// A freshly created pool: empty reserves, no LP shares.
    pub open spec fn initial(price: int, fee_min: int, fee_max: int, liquidity_target: int) -> PoolView {
        PoolView {
            token_reserve: 0,
            staked_token_reserve: 0,
            total_lp_tokens: 0,
            price,
            fee_min,
            fee_max,
            liquidity_target,
        }
    }

    /// Every amount lies in `0..=max_amount()`, the configuration is valid,
    /// and a pool without LP shares holds no underlying token.
    pub open spec fn wf(self) -> bool {
        &&& 0 <= self.token_reserve <= max_amount()
        &&& 0 <= self.staked_token_reserve <= max_amount()
        &&& 0 <= self.total_lp_tokens <= max_amount()
        &&& 0 <= self.price <= max_amount()
        &&& self.liquidity_target <= max_amount()
        &&& valid_config(self.fee_min, self.fee_max, self.liquidity_target)
        &&& self.total_lp_tokens == 0 ==> self.token_reserve == 0
    }

    /// How far the fee rate falls below `fee_max` for a reserve at or above
    /// the liquidity target: the spread `fee_max - fee_min` scaled by the
    /// excess over the target relative to the target, rounded down.
    pub open spec fn fee_discount(self, reserve: int) -> int {
        (self.fee_max - self.fee_min) * (reserve - self.liquidity_target) / self.liquidity_target
    }

    /// The fee rate charged when the underlying reserve is `reserve`.
    ///
    /// Below the liquidity target it is `fee_max`. From the target on it falls
    /// linearly, `fee_max - fee_discount(reserve)`, from `fee_max` at the target
    /// to `fee_min` at twice the target. Unclamped, that formula would drop
    /// below `fee_min`, and then below zero, past twice the target; the rate
    /// stops at `fee_min` there.
    pub open spec fn fee_at(self, reserve: int) -> int {
        if reserve < self.liquidity_target {
            self.fee_max
        } else if self.fee_discount(reserve) >= self.fee_max - self.fee_min {
            self.fee_min
        } else {
            self.fee_max - self.fee_discount(reserve)
        }
    }

    /// The fee rate charged in the current state.
    pub open spec fn fee(self) -> int {
        self.fee_at(self.token_reserve)
    }

    /// LP shares minted for a deposit of `amount`: one for one into a pool
    /// without shares, else the deposit's fraction of the reserve, rounded down.
    pub open spec fn minted(self, amount: int) -> int {
        if self.total_lp_tokens == 0 {
            amount
        } else {
            amount * self.total_lp_tokens / self.token_reserve
        }
    }

    /// A deposit of `amount` leaves the reserve and the LP supply representable.
    pub open spec fn can_deposit(self, amount: int) -> bool {
        &&& self.token_reserve + amount <= max_amount()
        &&& self.total_lp_tokens + self.minted(amount) <= max_amount()
    }

    /// The state after a deposit of `amount`.
    pub open spec fn after_deposit(self, amount: int) -> PoolView {
        PoolView {
            token_reserve: self.token_reserve + amount,
            total_lp_tokens: self.total_lp_tokens + self.minted(amount),
            ..self
        }
    }

    /// Underlying tokens paid out for `lp_tokens` shares, rounded up.
    pub open spec fn withdrawn_tokens(self, lp_tokens: int) -> int {
        ceil_div(lp_tokens * self.token_reserve, self.total_lp_tokens)
    }

    /// Staked tokens paid out for `lp_tokens` shares, rounded up.
    pub open spec fn withdrawn_staked(self, lp_tokens: int) -> int {
        ceil_div(lp_tokens * self.staked_token_reserve, self.total_lp_tokens)
    }

    /// The state after `lp_tokens` shares are burnt.
    pub open spec fn after_withdraw(self, lp_tokens: int) -> PoolView {
        PoolView {
            token_reserve: self.token_reserve - self.withdrawn_tokens(lp_tokens),
            staked_token_reserve: self.staked_token_reserve - self.withdrawn_staked(lp_tokens),
            total_lp_tokens: self.total_lp_tokens - lp_tokens,
            ..self
        }
    }

    /// The value in underlying tokens of `staked_amount` at the pool's price,
    /// rounded down.
    pub open spec fn gross_amount(self, staked_amount: int) -> int {
        staked_amount * self.price / (SCALE as int)
    }

    /// The part of a swap's gross value that the pool keeps as its fee,
    /// rounded down.
    pub open spec fn fee_amount(self, staked_amount: int) -> int {
        self.gross_amount(staked_amount) * self.fee() / (SCALE as int)
    }

    /// Underlying tokens paid out for `staked_amount`.
    pub open spec fn received(self, staked_amount: int) -> int {
        self.gross_amount(staked_amount) - self.fee_amount(staked_amount)
    }

    /// The state after a swap of `staked_amount`.
    pub open spec fn after_swap(self, staked_amount: int) -> PoolView {
        PoolView {
            token_reserve: self.token_reserve - self.received(staked_amount),
            staked_token_reserve: self.staked_token_reserve + staked_amount,
            ..self
        }
    }

    /// The state that `op` leaves, or `None` where the pool refuses it or its
    /// precondition fails.
    pub open spec fn step(self, op: PoolOp) -> Option<PoolView> {
        match op {
            PoolOp::AddLiquidity(amount) => {
                if (self.total_lp_tokens > 0 ==> self.token_reserve > 0) && self.can_deposit(
                    amount as int,
                ) {
                    Some(self.after_deposit(amount as int))
                } else {
                    None
                }
            },
            PoolOp::RemoveLiquidity(lp_tokens) => {
                if 0 < self.total_lp_tokens && lp_tokens <= self.total_lp_tokens {
                    Some(self.after_withdraw(lp_tokens as int))
                } else {
                    None
                }
            },
            PoolOp::Swap(staked_amount) => {
                if self.received(staked_amount as int) <= self.token_reserve
                    && self.staked_token_reserve + staked_amount <= max_amount() {
                    Some(self.after_swap(staked_amount as int))
                } else {
                    None
                }
            },
        }
    }

    /// The state after `ops` in order, or `None` once one of them fails.
    pub open spec fn run(self, ops: Seq<PoolOp>) -> Option<PoolView>
        decreases ops.len(),
    {
        if ops.len() == 0 {
            Some(self)
        } else {
            match self.step(ops[0]) {
                Some(next) => next.run(ops.drop_first()),
                None => None,
            }
        }
    }
}

} // verus!
