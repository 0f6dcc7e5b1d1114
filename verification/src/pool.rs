//! Pool state, lifecycle, liquidity provisioning and the swap engine.
//!
//! Each operation is a pure state transition: it either commits a fully
//! checked update to the pool and returns a result quantity, or returns an
//! error with the pool left exactly as it was.

use vstd::prelude::*;

use crate::arith::{
    checked_add_u64, checked_div_u128, checked_mul_u128, checked_sub_u64, is_sqrt_floor,
    isqrt_u128, lemma_u64_mul_fits_u128, narrow_u128_to_u64,
};
use crate::error::AmmError;

verus! {

/// One two-asset liquidity pool: its reserves and outstanding LP shares.
#[derive(Clone, Copy, Debug, PartialEq, Eq, Structural)]
pub struct Pool {
    /// Quantity of asset A held by the pool.
    pub token_a_balance: u64,
    /// Quantity of asset B held by the pool.
    pub token_b_balance: u64,
    /// Total outstanding liquidity-provider shares.
    pub lp_supply: u64,
}

impl Pool {
    /// A pool is either empty (never funded, all fields zero) or active,
    /// with shares outstanding and both reserves strictly positive.
    pub open spec fn wf(self) -> bool {
        if self.lp_supply == 0 {
            self.token_a_balance == 0 && self.token_b_balance == 0
        } else {
            self.token_a_balance > 0 && self.token_b_balance > 0
        }
    }
}

/// The reserve a swap in the given direction draws its input into.
pub open spec fn spec_reserve_in(p: Pool, is_token_a_to_b: bool) -> u64 {
    if is_token_a_to_b {
        p.token_a_balance
    } else {
        p.token_b_balance
    }
}

/// The reserve a swap in the given direction pays its output from.
pub open spec fn spec_reserve_out(p: Pool, is_token_a_to_b: bool) -> u64 {
    if is_token_a_to_b {
        p.token_b_balance
    } else {
        p.token_a_balance
    }
}

/// Shares a deposit of `amount_a` is worth against the current reserves:
/// the widened numerator `amount_a * lp_supply` floor-divided by reserve A.
pub open spec fn spec_lp_from_a(p: Pool, amount_a: u64) -> int {
    amount_a * p.lp_supply / p.token_a_balance as int
}

/// Shares a deposit of `amount_b` is worth against the current reserves.
pub open spec fn spec_lp_from_b(p: Pool, amount_b: u64) -> int {
    amount_b * p.lp_supply / p.token_b_balance as int
}

/// Shares minted for a deposit into an active pool: issuance is limited by
/// the more-constrained asset, so depositing off the current reserve ratio
/// earns no credit for the over-supplied excess.
pub open spec fn spec_lp_mint(p: Pool, amount_a: u64, amount_b: u64) -> int {
    if spec_lp_from_a(p, amount_a) <= spec_lp_from_b(p, amount_b) {
        spec_lp_from_a(p, amount_a)
    } else {
        spec_lp_from_b(p, amount_b)
    }
}

/// Constant-product output with a 0.3% fee retained by the pool:
/// `floor(997 * amount_in * reserve_out / (1000 * reserve_in + 997 * amount_in))`.
pub open spec fn spec_swap_output(amount_in: u64, reserve_in: u64, reserve_out: u64) -> int {
    (997 * amount_in * reserve_out) / (1000 * reserve_in + 997 * amount_in)
}

/// The successful-swap transition relation between a pool before and after.
pub open spec fn swap_transition(
    p: Pool,
    amount_in: u64,
    is_token_a_to_b: bool,
    q: Pool,
    amount_out: u64,
) -> bool {
    &&& amount_out == spec_swap_output(
        amount_in,
        spec_reserve_in(p, is_token_a_to_b),
        spec_reserve_out(p, is_token_a_to_b),
    )
    &&& amount_out < spec_reserve_out(p, is_token_a_to_b)
    &&& spec_reserve_in(q, is_token_a_to_b) == spec_reserve_in(p, is_token_a_to_b) + amount_in
    &&& spec_reserve_out(q, is_token_a_to_b) == spec_reserve_out(p, is_token_a_to_b) - amount_out
    &&& q.lp_supply == p.lp_supply
}

/// A fresh pool in the empty lifecycle state. No preconditions, no failure
/// modes.
pub fn initialize_pool() -> (pool: Pool)
    ensures
        pool == (Pool { token_a_balance: 0, token_b_balance: 0, lp_supply: 0 }),
        pool.wf(),
{
    Pool { token_a_balance: 0, token_b_balance: 0, lp_supply: 0 }
}

/// Shares to mint for a deposit of `(amount_a, amount_b)` against `pool`.
///
/// A first deposit (no shares outstanding) mints the floor square root of
/// the widened product `amount_a * amount_b`, which sets the initial share
/// price. A later deposit mints `min` of the two proportional quotients; a
/// zero reserve beside outstanding shares is surfaced as an
/// internal-consistency error rather than a spurious division fault.
pub fn calculate_lp_tokens(amount_a: u64, amount_b: u64, pool: &Pool) -> (r: Result<
    u64,
    AmmError,
>)
    ensures
        pool.lp_supply == 0 ==> r is Ok && is_sqrt_floor(
            (amount_a * amount_b) as nat,
            r->Ok_0 as nat,
        ),
        pool.lp_supply > 0 && (pool.token_a_balance == 0 || pool.token_b_balance == 0) ==> r
            == Err::<u64, AmmError>(AmmError::InternalInconsistency),
        pool.lp_supply > 0 && pool.token_a_balance > 0 && pool.token_b_balance > 0 ==> (if
        spec_lp_mint(*pool, amount_a, amount_b) <= u64::MAX {
            r == Ok::<u64, AmmError>(spec_lp_mint(*pool, amount_a, amount_b) as u64)
        } else {
            r == Err::<u64, AmmError>(AmmError::ArithmeticOverflow)
        }),
{
    if pool.lp_supply == 0 {
        proof {
            lemma_u64_mul_fits_u128(amount_a, amount_b);
        }
        let product: u128 = (amount_a as u128) * (amount_b as u128);
        Ok(isqrt_u128(product))
    } else if pool.token_a_balance == 0 || pool.token_b_balance == 0 {
        Err(AmmError::InternalInconsistency)
    } else {
        proof {
            lemma_u64_mul_fits_u128(amount_a, pool.lp_supply);
            lemma_u64_mul_fits_u128(amount_b, pool.lp_supply);
        }
        let lp_from_a: u128 = (amount_a as u128) * (pool.lp_supply as u128) / (
        pool.token_a_balance as u128);
        let lp_from_b: u128 = (amount_b as u128) * (pool.lp_supply as u128) / (
        pool.token_b_balance as u128);
        let minted: u128 = if lp_from_a <= lp_from_b {
            lp_from_a
        } else {
            lp_from_b
        };
        narrow_u128_to_u64(minted)
    }
}

/// Deposit `(amount_a, amount_b)` into the pool and mint LP shares.
///
/// On success both reserves grow by the deposited amounts and the LP supply
/// grows by the minted shares, all under checked arithmetic. On any error
/// the pool is left exactly as it was.
pub fn provide_liquidity(pool: &mut Pool, amount_a: u64, amount_b: u64) -> (r: Result<
    u64,
    AmmError,
>)
    ensures
        r is Err ==> *final(pool) == *old(pool),
        amount_a == 0 || amount_b == 0 ==> r == Err::<u64, AmmError>(AmmError::InvalidAmount),
        amount_a > 0 && amount_b > 0 && old(pool).lp_supply > 0 && (old(pool).token_a_balance == 0
            || old(pool).token_b_balance == 0) ==> r == Err::<u64, AmmError>(
            AmmError::InternalInconsistency,
        ),
        amount_a > 0 && amount_b > 0 && old(pool).lp_supply == 0 ==> (if old(
            pool,
        ).token_a_balance + amount_a <= u64::MAX && old(pool).token_b_balance + amount_b
            <= u64::MAX {
            r is Ok && is_sqrt_floor((amount_a * amount_b) as nat, r->Ok_0 as nat) && *final(pool)
                == (Pool {
                token_a_balance: (old(pool).token_a_balance + amount_a) as u64,
                token_b_balance: (old(pool).token_b_balance + amount_b) as u64,
                lp_supply: r->Ok_0,
            })
        } else {
            r == Err::<u64, AmmError>(AmmError::ArithmeticOverflow)
        }),
        amount_a > 0 && amount_b > 0 && old(pool).lp_supply > 0 && old(pool).token_a_balance > 0
            && old(pool).token_b_balance > 0 ==> ({
            let minted = spec_lp_mint(*old(pool), amount_a, amount_b);
            if minted <= u64::MAX && old(pool).token_a_balance + amount_a <= u64::MAX && old(
                pool,
            ).token_b_balance + amount_b <= u64::MAX && old(pool).lp_supply + minted <= u64::MAX {
                r == Ok::<u64, AmmError>(minted as u64) && *final(pool) == (Pool {
                    token_a_balance: (old(pool).token_a_balance + amount_a) as u64,
                    token_b_balance: (old(pool).token_b_balance + amount_b) as u64,
                    lp_supply: (old(pool).lp_supply + minted) as u64,
                })
            } else {
                r == Err::<u64, AmmError>(AmmError::ArithmeticOverflow)
            }
        }),
        r is Ok ==> final(pool).wf(),
{
    if amount_a == 0 || amount_b == 0 {
        return Err(AmmError::InvalidAmount);
    }
    let minted = match calculate_lp_tokens(amount_a, amount_b, pool) {
        Ok(m) => m,
        Err(e) => {
            return Err(e);
        },
    };
    let new_a = match checked_add_u64(pool.token_a_balance, amount_a) {
        Ok(v) => v,
        Err(e) => {
            return Err(e);
        },
    };
    let new_b = match checked_add_u64(pool.token_b_balance, amount_b) {
        Ok(v) => v,
        Err(e) => {
            return Err(e);
        },
    };
    let new_lp = match checked_add_u64(pool.lp_supply, minted) {
        Ok(v) => v,
        Err(e) => {
            return Err(e);
        },
    };
    proof {
        if old(pool).lp_supply == 0 {
            assert(amount_a * amount_b > 0) by (nonlinear_arith)
                requires
                    amount_a > 0,
                    amount_b > 0,
            ;
            lemma_first_mint_positive((amount_a * amount_b) as nat, minted as nat);
        }
    }
    pool.token_a_balance = new_a;
    pool.token_b_balance = new_b;
    pool.lp_supply = new_lp;
    Ok(minted)
}

/// A first deposit of two positive amounts always mints at least one share:
/// the floor root of a positive product is positive.
proof fn lemma_first_mint_positive(n: nat, r: nat)
    by (nonlinear_arith)
    requires
        n > 0,
        n < (r + 1) * (r + 1),
    ensures
        r > 0,
{
}

/// Constant-product-with-fee output for a trade of `amount_in` against the
/// given reserves, every multiplication widened and checked.
///
/// Fails with `DivisionByZero` when either reserve is zero, with
/// `ArithmeticOverflow` when the widened numerator exceeds the 128-bit
/// range, and with `InsufficientLiquidity` if the output would meet or
/// exceed the output reserve (with positive reserves that last check is
/// proved never to fire, and the contract shows it).
pub fn calculate_output(amount_in: u64, reserve_in: u64, reserve_out: u64) -> (r: Result<
    u64,
    AmmError,
>)
    ensures
        reserve_in == 0 || reserve_out == 0 ==> r == Err::<u64, AmmError>(AmmError::DivisionByZero),
        reserve_in > 0 && reserve_out > 0 ==> (if 997 * amount_in * reserve_out <= u128::MAX {
            r == Ok::<u64, AmmError>(spec_swap_output(amount_in, reserve_in, reserve_out) as u64)
                && spec_swap_output(amount_in, reserve_in, reserve_out) < reserve_out
        } else {
            r == Err::<u64, AmmError>(AmmError::ArithmeticOverflow)
        }),
{
    if reserve_in == 0 || reserve_out == 0 {
        return Err(AmmError::DivisionByZero);
    }
    let amount_in_with_fee: u128 = (amount_in as u128) * 997;
    let numerator: u128 = match checked_mul_u128(amount_in_with_fee, reserve_out as u128) {
        Ok(v) => v,
        Err(e) => {
            return Err(e);
        },
    };
    let denominator: u128 = (reserve_in as u128) * 1000 + amount_in_with_fee;
    let amount_out: u128 = match checked_div_u128(numerator, denominator) {
        Ok(v) => v,
        Err(e) => {
            return Err(e);
        },
    };
    proof {
        lemma_swap_output_bounded(
            amount_in as int,
            reserve_in as int,
            reserve_out as int,
            amount_out as int,
        );
    }
    if amount_out >= reserve_out as u128 {
        return Err(AmmError::InsufficientLiquidity);
    }
    Ok(amount_out as u64)
}

/// The floored constant-product quotient stays strictly below the output
/// reserve whenever the input reserve is positive.
proof fn lemma_swap_output_bounded(amount_in: int, reserve_in: int, reserve_out: int, out: int)
    by (nonlinear_arith)
    requires
        amount_in >= 0,
        reserve_in > 0,
        reserve_out > 0,
        out == (997 * amount_in * reserve_out) / (1000 * reserve_in + 997 * amount_in),
    ensures
        0 <= out < reserve_out,
{
}

/// Trade `amount_in` of one asset against the pool.
///
/// `is_token_a_to_b` chooses the direction: the input-side reserve grows by
/// `amount_in`, the output-side reserve shrinks by the computed output, and
/// the LP supply is untouched. The retained fee makes the reserve product
/// non-decreasing across every successful swap. On any error the pool is
/// left exactly as it was.
pub fn swap(pool: &mut Pool, amount_in: u64, is_token_a_to_b: bool) -> (r: Result<u64, AmmError>)
    ensures
        r is Err ==> *final(pool) == *old(pool),
        amount_in == 0 ==> r == Err::<u64, AmmError>(AmmError::InvalidAmount),
        amount_in > 0 && (spec_reserve_in(*old(pool), is_token_a_to_b) == 0 || spec_reserve_out(
            *old(pool),
            is_token_a_to_b,
        ) == 0) ==> r == Err::<u64, AmmError>(AmmError::DivisionByZero),
        amount_in > 0 && spec_reserve_in(*old(pool), is_token_a_to_b) > 0 && spec_reserve_out(
            *old(pool),
            is_token_a_to_b,
        ) > 0 ==> ({
            let rin = spec_reserve_in(*old(pool), is_token_a_to_b);
            let rout = spec_reserve_out(*old(pool), is_token_a_to_b);
            if 997 * amount_in * rout > u128::MAX || rin + amount_in > u64::MAX {
                r == Err::<u64, AmmError>(AmmError::ArithmeticOverflow)
            } else {
                r is Ok && swap_transition(*old(pool), amount_in, is_token_a_to_b, *final(pool), r->Ok_0)
            }
        }),
        r is Ok ==> final(pool).token_a_balance * final(pool).token_b_balance >= old(
            pool,
        ).token_a_balance * old(pool).token_b_balance,
        r is Ok && old(pool).wf() ==> final(pool).wf(),
{
    if amount_in == 0 {
        return Err(AmmError::InvalidAmount);
    }
    let (reserve_in, reserve_out) = if is_token_a_to_b {
        (pool.token_a_balance, pool.token_b_balance)
    } else {
        (pool.token_b_balance, pool.token_a_balance)
    };
    let amount_out = match calculate_output(amount_in, reserve_in, reserve_out) {
        Ok(v) => v,
        Err(e) => {
            return Err(e);
        },
    };
    let new_in = match checked_add_u64(reserve_in, amount_in) {
        Ok(v) => v,
        Err(e) => {
            return Err(e);
        },
    };
    let new_out = match checked_sub_u64(reserve_out, amount_out) {
        Ok(v) => v,
        Err(e) => {
            return Err(e);
        },
    };
    if is_token_a_to_b {
        pool.token_a_balance = new_in;
        pool.token_b_balance = new_out;
    } else {
        pool.token_b_balance = new_in;
        pool.token_a_balance = new_out;
    }
    proof {
        lemma_swap_product_nondecreasing(
            *old(pool),
            amount_in,
            is_token_a_to_b,
            *pool,
            amount_out,
        );
    }
    Ok(amount_out)
}

/// Law: fee retention keeps the constant product non-decreasing. Across any
/// sequence of successful swaps, the reserve product after each swap is at
/// least its value before that swap, since each step satisfies
/// `swap_transition` and this lemma applies to every such step.
pub proof fn lemma_swap_product_nondecreasing(
    p: Pool,
    amount_in: u64,
    is_token_a_to_b: bool,
    q: Pool,
    amount_out: u64,
)
    requires
        amount_in > 0,
        spec_reserve_in(p, is_token_a_to_b) > 0,
        spec_reserve_out(p, is_token_a_to_b) > 0,
        swap_transition(p, amount_in, is_token_a_to_b, q, amount_out),
    ensures
        q.token_a_balance * q.token_b_balance >= p.token_a_balance * p.token_b_balance,
{
    let rin = spec_reserve_in(p, is_token_a_to_b) as int;
    let rout = spec_reserve_out(p, is_token_a_to_b) as int;
    let ain = amount_in as int;
    let out = amount_out as int;
    lemma_swap_output_charges_fee(ain, rin, rout, out);
    assert((rin + ain) * (rout - out) >= rin * rout) by (nonlinear_arith)
        requires
            rin > 0,
            rout > 0,
            ain > 0,
            0 <= out,
            (rin + ain) * out <= ain * rout,
    ;
    assert(q.token_a_balance * q.token_b_balance == (rin + ain) * (rout - out)) by (nonlinear_arith)
        requires
            spec_reserve_in(q, is_token_a_to_b) == rin + ain,
            spec_reserve_out(q, is_token_a_to_b) == rout - out,
            spec_reserve_in(q, is_token_a_to_b) * spec_reserve_out(q, is_token_a_to_b)
                == q.token_a_balance * q.token_b_balance,
    ;
    assert(spec_reserve_in(p, is_token_a_to_b) * spec_reserve_out(p, is_token_a_to_b)
        == p.token_a_balance * p.token_b_balance);
}

/// The fee term makes the output cheap enough that the pool never pays out
/// more than the input is worth at the pre-swap price:
/// `(reserve_in + amount_in) * out <= amount_in * reserve_out`.
proof fn lemma_swap_output_charges_fee(ain: int, rin: int, rout: int, out: int)
    requires
        ain > 0,
        rin > 0,
        rout > 0,
        out == (997 * ain * rout) / (1000 * rin + 997 * ain),
    ensures
        (rin + ain) * out <= ain * rout,
{
    let d = 1000 * rin + 997 * ain;
    assert(out * d <= 997 * ain * rout && out >= 0) by (nonlinear_arith)
        requires
            d > 0,
            997 * ain * rout >= 0,
            out == (997 * ain * rout) / d,
    ;
    assert(997 * ((rin + ain) * out) <= 997 * (ain * rout)) by (nonlinear_arith)
        requires
            997 * (rin + ain) <= d,
            out >= 0,
            out * d <= 997 * ain * rout,
    ;
}

} // verus!
