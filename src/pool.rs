//! The executable pool and its four operations.
use crate::arith::lemma_product_fits_u128;
use crate::laws::{
    lemma_fee_in_range, lemma_fee_within_gross, lemma_minted_nonnegative, lemma_step_preserves_wf,
    lemma_withdraw_within_reserves,
};
use crate::model::{valid_config, PoolOp, PoolView, SCALE};
use vstd::prelude::*;

verus! {

/// Why the pool refused a request; a refused request leaves the pool unchanged.
#[derive(Clone, Copy, Debug, PartialEq, Eq, Structural)]
pub enum PoolError {
    /// The parameters given to `init` are out of range.
    ConfigurationError,
    /// The request would pay out more than the pool holds.
    InsufficientLiquidity,
    /// A reserve or the LP supply would exceed `u64::MAX`.
    ArithmeticOverflow,
}

/// A liquidity pool of an underlying token and its staked derivative.
///
/// `price`, `fee_min` and `fee_max` are fixed-point values over `SCALE`.
#[derive(Debug)]
pub struct LpPool {
    pub token_reserve: u64,
    pub staked_token_reserve: u64,
    pub total_lp_tokens: u64,
    pub price: u64,
    pub fee_min: u64,
    pub fee_max: u64,
    pub liquidity_target: u64,
}

impl View for LpPool {
    type V = PoolView;

    open spec fn view(&self) -> PoolView {
        PoolView {
            token_reserve: self.token_reserve as int,
            staked_token_reserve: self.staked_token_reserve as int,
            total_lp_tokens: self.total_lp_tokens as int,
            price: self.price as int,
            fee_min: self.fee_min as int,
            fee_max: self.fee_max as int,
            liquidity_target: self.liquidity_target as int,
        }
    }
}

impl LpPool {
    /// The pool's invariant: that of its model.
    pub open spec fn wf(&self) -> bool {
        self@.wf()
    }

    /// Creates an empty pool, or refuses parameters with a zero liquidity
    /// target, `fee_min > fee_max`, or `fee_max` above `SCALE`.
    pub fn init(price: u64, fee_min: u64, fee_max: u64, liquidity_target: u64) -> (r: Result<
        LpPool,
        PoolError,
    >)
        ensures
            r is Ok <==> valid_config(fee_min as int, fee_max as int, liquidity_target as int),
            r matches Ok(pool) ==> pool.wf() && pool@ == PoolView::initial(
                price as int,
                fee_min as int,
                fee_max as int,
                liquidity_target as int,
            ),
            r matches Err(e) ==> e == PoolError::ConfigurationError,
    {
        if liquidity_target == 0 || fee_min > fee_max || fee_max > SCALE {
            return Err(PoolError::ConfigurationError);
        }
        Ok(
            LpPool {
                token_reserve: 0,
                staked_token_reserve: 0,
                total_lp_tokens: 0,
                price,
                fee_min,
                fee_max,
                liquidity_target,
            },
        )
    }

    /// The fee rate for a swap in the current state.
    pub fn calculate_fee(&self) -> (fee: u64)
        requires
            self.wf(),
        ensures
            fee == self@.fee(),
            fee <= SCALE,
    {
        proof {
            lemma_fee_in_range(self@, self.token_reserve as int);
        }
        if self.token_reserve < self.liquidity_target {
            return self.fee_max;
        }
        let spread = self.fee_max - self.fee_min;
        let excess = self.token_reserve - self.liquidity_target;
        proof {
            lemma_product_fits_u128(spread as int, excess as int);
        }
        let discount = (spread as u128) * (excess as u128) / (self.liquidity_target as u128);
        if discount >= spread as u128 {
            self.fee_min
        } else {
            self.fee_max - discount as u64
        }
    }

    /// Deposits `amount` underlying tokens and returns the LP shares minted
    /// for them; refuses a deposit after which an amount would not fit in `u64`.
    pub fn add_liquidity(&mut self, amount: u64) -> (r: Result<u64, PoolError>)
        requires
            old(self).wf(),
            old(self).total_lp_tokens > 0 ==> old(self).token_reserve > 0,
        ensures
            final(self).wf(),
            r is Ok <==> old(self)@.can_deposit(amount as int),
            r matches Ok(minted) ==> minted == old(self)@.minted(amount as int)
                && final(self)@ == old(self)@.after_deposit(amount as int),
            r matches Err(e) ==> e == PoolError::ArithmeticOverflow && *final(self) == *old(self),
            old(self)@.step(PoolOp::AddLiquidity(amount as nat)) == (if r is Ok {
                Some(final(self)@)
            } else {
                None::<PoolView>
            }),
    {
        let minted: u128 = if self.total_lp_tokens == 0 {
            amount as u128
        } else {
            proof {
                lemma_product_fits_u128(amount as int, self.total_lp_tokens as int);
            }
            let product = (amount as u128) * (self.total_lp_tokens as u128);
            product / (self.token_reserve as u128)
        };
        proof {
            lemma_minted_nonnegative(self@, amount as int);
        }
        if self.token_reserve > u64::MAX - amount || minted > (u64::MAX - self.total_lp_tokens)
            as u128 {
            return Err(PoolError::ArithmeticOverflow);
        }
        let minted = minted as u64;
        proof {
            lemma_step_preserves_wf(self@, PoolOp::AddLiquidity(amount as nat));
        }
        self.token_reserve = self.token_reserve + amount;
        self.total_lp_tokens = self.total_lp_tokens + minted;
        Ok(minted)
    }

    /// Burns `lp_tokens` shares and returns the underlying and staked tokens
    /// paid out for them, each its share of the reserve rounded up; refuses
    /// to burn more shares than exist.
    pub fn remove_liquidity(&mut self, lp_tokens: u64) -> (r: Result<(u64, u64), PoolError>)
        requires
            old(self).wf(),
            old(self).total_lp_tokens > 0,
        ensures
            final(self).wf(),
            r is Ok <==> lp_tokens <= old(self).total_lp_tokens,
            r matches Ok((tokens, staked)) ==> tokens == old(self)@.withdrawn_tokens(
                lp_tokens as int,
            ) && staked == old(self)@.withdrawn_staked(lp_tokens as int) && final(self)@ == old(
                self,
            )@.after_withdraw(lp_tokens as int),
            r matches Err(e) ==> e == PoolError::InsufficientLiquidity && *final(self) == *old(
                self,
            ),
            old(self)@.step(PoolOp::RemoveLiquidity(lp_tokens as nat)) == (if r is Ok {
                Some(final(self)@)
            } else {
                None::<PoolView>
            }),
    {
        if lp_tokens > self.total_lp_tokens {
            return Err(PoolError::InsufficientLiquidity);
        }
        let total = self.total_lp_tokens as u128;
        proof {
            lemma_product_fits_u128(lp_tokens as int, self.token_reserve as int);
            lemma_product_fits_u128(lp_tokens as int, self.staked_token_reserve as int);
            lemma_withdraw_within_reserves(self@, lp_tokens as int);
            lemma_step_preserves_wf(self@, PoolOp::RemoveLiquidity(lp_tokens as nat));
        }
        let tokens = ((lp_tokens as u128) * (self.token_reserve as u128) + total - 1) / total;
        let staked = ((lp_tokens as u128) * (self.staked_token_reserve as u128) + total - 1)
            / total;
        let tokens = tokens as u64;
        let staked = staked as u64;
        self.token_reserve = self.token_reserve - tokens;
        self.staked_token_reserve = self.staked_token_reserve - staked;
        self.total_lp_tokens = self.total_lp_tokens - lp_tokens;
        Ok((tokens, staked))
    }

    /// Exchanges `staked_amount` staked tokens for underlying tokens at the
    /// pool's price, less the fee that `calculate_fee` gives before the swap.
    /// Refuses a swap that would pay out more than the underlying reserve, or
    /// after which the staked reserve would not fit in `u64`.
    pub fn swap(&mut self, staked_amount: u64) -> (r: Result<u64, PoolError>)
        requires
            old(self).wf(),
        ensures
            final(self).wf(),
            r is Ok <==> old(self)@.received(staked_amount as int) <= old(self).token_reserve
                && old(self).staked_token_reserve + staked_amount <= u64::MAX,
            r matches Ok(received) ==> received == old(self)@.received(staked_amount as int)
                && final(self)@ == old(self)@.after_swap(staked_amount as int),
            r matches Err(e) ==> *final(self) == *old(self) && (e
                == PoolError::InsufficientLiquidity <==> old(self)@.received(staked_amount as int)
                > old(self).token_reserve) && (e == PoolError::ArithmeticOverflow <==> old(
                self,
            )@.received(staked_amount as int) <= old(self).token_reserve),
            old(self)@.step(PoolOp::Swap(staked_amount as nat)) == (if r is Ok {
                Some(final(self)@)
            } else {
                None::<PoolView>
            }),
    {
        let fee = self.calculate_fee();
        let scale = SCALE as u128;
        proof {
            lemma_product_fits_u128(staked_amount as int, self.price as int);
            lemma_fee_within_gross(self@, staked_amount as int);
        }
        let gross = (staked_amount as u128) * (self.price as u128) / scale;
        proof {
            assert(gross as int * fee <= staked_amount as int * self.price) by (nonlinear_arith)
                requires
                    gross as int * scale <= staked_amount as int * self.price,
                    fee <= scale,
            ;
        }
        let fee_amount = gross * (fee as u128) / scale;
        let received = gross - fee_amount;
        if received > self.token_reserve as u128 {
            return Err(PoolError::InsufficientLiquidity);
        }
        if self.staked_token_reserve > u64::MAX - staked_amount {
            return Err(PoolError::ArithmeticOverflow);
        }
        let received = received as u64;
        proof {
            lemma_step_preserves_wf(self@, PoolOp::Swap(staked_amount as nat));
        }
        self.token_reserve = self.token_reserve - received;
        self.staked_token_reserve = self.staked_token_reserve + staked_amount;
        Ok(received)
    }
}

} // verus!
