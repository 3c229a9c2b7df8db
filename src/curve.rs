//! The pool's pricing arithmetic: geometric-mean bootstrap shares,
//! proportional shares and the constant-product swap output.

use vstd::arithmetic::div_mod::{lemma_fundamental_div_mod, lemma_mod_pos_bound};
use vstd::prelude::*;

verus! {

use crate::accounts::AmmError;

/// `r` is the square root of `n`, rounded down.
pub open spec fn is_floor_sqrt(n: nat, r: nat) -> bool {
    r * r <= n && n < (r + 1) * (r + 1)
}

/// The largest root candidate not above `k` whose square does not exceed `n`.
pub open spec fn root_at_most(n: nat, k: nat) -> nat
    decreases k,
{
    if k == 0 || k * k <= n {
        k
    } else {
        root_at_most(n, (k - 1) as nat)
    }
}

/// `floor(sqrt(n))`.
pub open spec fn floor_sqrt(n: nat) -> nat {
    root_at_most(n, n)
}

/// Shares minted by the first deposit into a pool: `floor(sqrt(a * b))`.
pub open spec fn bootstrap_share_amount(amount_a: nat, amount_b: nat) -> nat {
    floor_sqrt(amount_a * amount_b)
}

/// Shares minted by a later deposit, measured against the vault balances
/// after the deposit: `min(floor(a * S / Va), floor(b * S / Vb))`.
pub open spec fn proportional_share_amount(
    amount_a: nat,
    amount_b: nat,
    supply: nat,
    vault_a: nat,
    vault_b: nat,
) -> nat {
    let from_a = (amount_a * supply) / vault_a;
    let from_b = (amount_b * supply) / vault_b;
    if from_a <= from_b {
        from_a
    } else {
        from_b
    }
}

/// Output reserve left by a swap: `floor(x * y / (x + amount_in))`.
pub open spec fn swapped_output_reserve(input_reserve: nat, output_reserve: nat, amount_in: nat) -> nat {
    (input_reserve * output_reserve) / (input_reserve + amount_in)
}

/// What a swap pays out: the output reserve less what is left of it.
pub open spec fn swap_amount_out(input_reserve: nat, output_reserve: nat, amount_in: nat) -> int {
    output_reserve - swapped_output_reserve(input_reserve, output_reserve, amount_in)
}

proof fn lemma_quotient_bounds(x: int, d: int)
    requires
        0 <= x,
        0 < d,
    ensures
        0 <= x / d,
        d * (x / d) <= x < d * (x / d) + d,
{
    lemma_fundamental_div_mod(x, d);
    lemma_mod_pos_bound(x, d);
    assert(0 <= x / d) by (nonlinear_arith)
        requires
            x == d * (x / d) + (x % d),
            x % d < d,
            0 <= x,
            0 < d,
    ;
}

proof fn lemma_root_at_most(n: nat, r: nat, k: nat)
    requires
        is_floor_sqrt(n, r),
        r <= k,
    ensures
        root_at_most(n, k) == r,
    decreases k,
{
    if k > r {
        assert(k * k > n) by (nonlinear_arith)
            requires
                k >= r + 1,
                n < (r + 1) * (r + 1),
        ;
        lemma_root_at_most(n, r, (k - 1) as nat);
    }
}

/// The rounded-down square root is unique: any `r` with
/// `r * r <= n < (r + 1) * (r + 1)` is `floor_sqrt(n)`.
pub proof fn lemma_floor_sqrt_unique(n: nat, r: nat)
    requires
        is_floor_sqrt(n, r),
    ensures
        floor_sqrt(n) == r,
{
    assert(r <= n) by (nonlinear_arith)
        requires
            r * r <= n,
    ;
    lemma_root_at_most(n, r, n);
}

/// What is left of the output reserve never exceeds it, so a swap never pays
/// out a negative amount nor more than the output reserve holds.
pub proof fn lemma_swap_amount_out_bounds(input_reserve: nat, output_reserve: nat, amount_in: nat)
    requires
        input_reserve + amount_in > 0,
    ensures
        swapped_output_reserve(input_reserve, output_reserve, amount_in) <= output_reserve,
        0 <= swap_amount_out(input_reserve, output_reserve, amount_in) <= output_reserve,
{
    let k = (input_reserve * output_reserve) as int;
    let d = (input_reserve + amount_in) as int;
    lemma_quotient_bounds(k, d);
    let q = k / d;
    assert(q <= output_reserve) by (nonlinear_arith)
        requires
            d * q <= k,
            k == input_reserve * output_reserve,
            d == input_reserve + amount_in,
            d > 0,
            amount_in >= 0,
            output_reserve >= 0,
    ;
}

/// A swap never increases the product of the reserves: with the input
/// reserve raised by `amount_in` and the output reserve lowered by what is
/// paid out, their product is at most the product before the swap.
pub proof fn lemma_swap_product_non_increasing(input_reserve: nat, output_reserve: nat, amount_in: nat)
    requires
        input_reserve + amount_in > 0,
    ensures
        (input_reserve + amount_in) * (output_reserve - swap_amount_out(input_reserve, output_reserve, amount_in))
            <= input_reserve * output_reserve,
{
    let k = (input_reserve * output_reserve) as int;
    let d = (input_reserve + amount_in) as int;
    lemma_quotient_bounds(k, d);
}

/// A swap that takes in a positive amount pays out strictly less than the
/// whole output reserve, provided the product of the reserves reaches the new
/// input reserve (otherwise the rounded-down remaining output reserve is zero).
pub proof fn lemma_swap_cannot_drain(input_reserve: nat, output_reserve: nat, amount_in: nat)
    requires
        amount_in > 0,
        input_reserve * output_reserve >= input_reserve + amount_in,
    ensures
        swap_amount_out(input_reserve, output_reserve, amount_in) < output_reserve,
{
    let k = (input_reserve * output_reserve) as int;
    let d = (input_reserve + amount_in) as int;
    lemma_quotient_bounds(k, d);
    let q = k / d;
    assert(q >= 1) by (nonlinear_arith)
        requires
            k < d * q + d,
            k >= d,
            q >= 0,
    ;
}

/// Relies on `u128::isqrt`: the square root of its argument, rounded down.
#[verifier::external_body]
fn isqrt(n: u128) -> (r: u128)
    ensures
        is_floor_sqrt(n as nat, r as nat),
{
    n.isqrt()
}

/// Shares for the first deposit into a pool: the rounded-down geometric mean
/// of the two deposited amounts, computed over a 128-bit product.
pub fn bootstrap_shares(amount_a: u64, amount_b: u64) -> (r: u64)
    ensures
        r == bootstrap_share_amount(amount_a as nat, amount_b as nat),
{
    let a = amount_a as u128;
    let b = amount_b as u128;
    assert(a * b <= u128::MAX) by (nonlinear_arith)
        requires
            a <= u64::MAX,
            b <= u64::MAX,
    ;
    let product: u128 = a * b;
    let root = isqrt(product);
    proof {
        lemma_floor_sqrt_unique(product as nat, root as nat);
        assert(root <= u64::MAX) by (nonlinear_arith)
            requires
                root * root <= a * b,
                a <= u64::MAX,
                b <= u64::MAX,
        ;
    }
    root as u64
}

/// Shares for a deposit into a pool that already has a share supply,
/// measured against the vault balances after the deposit has landed.
pub fn proportional_shares(amount_a: u64, amount_b: u64, supply: u64, vault_a: u64, vault_b: u64) -> (r: u64)
    requires
        0 < vault_a,
        0 < vault_b,
        amount_a <= vault_a,
        amount_b <= vault_b,
    ensures
        r == proportional_share_amount(
            amount_a as nat,
            amount_b as nat,
            supply as nat,
            vault_a as nat,
            vault_b as nat,
        ),
        r <= supply,
{
    let from_a = share_of(amount_a, supply, vault_a);
    let from_b = share_of(amount_b, supply, vault_b);
    if from_a <= from_b {
        from_a
    } else {
        from_b
    }
}

fn share_of(amount: u64, supply: u64, vault: u64) -> (r: u64)
    requires
        0 < vault,
        amount <= vault,
    ensures
        r == (amount as nat * supply as nat) / (vault as nat),
        r <= supply,
{
    let x = amount as u128;
    let s = supply as u128;
    let v = vault as u128;
    assert(x * s <= u128::MAX) by (nonlinear_arith)
        requires
            x <= u64::MAX,
            s <= u64::MAX,
    ;
    let q: u128 = (x * s) / v;
    proof {
        lemma_quotient_bounds((x * s) as int, v as int);
        assert(q <= s) by (nonlinear_arith)
            requires
                v * q <= x * s,
                x <= v,
                0 < v,
        ;
    }
    q as u64
}

/// The constant-product swap: what is paid out for `amount_in` of the input
/// asset, against the reserves before the swap. Fails with `DivisionByZero`
/// exactly when the input reserve after the swap would be zero.
pub fn swap_output(input_reserve: u64, output_reserve: u64, amount_in: u64) -> (r: Result<u64, AmmError>)
    ensures
        input_reserve + amount_in == 0 ==> r == Err::<u64, AmmError>(AmmError::DivisionByZero),
        input_reserve + amount_in > 0 ==> (r matches Ok(out) && out == swap_amount_out(
            input_reserve as nat,
            output_reserve as nat,
            amount_in as nat,
        )),
{
    let x = input_reserve as u128;
    let y = output_reserve as u128;
    let new_input: u128 = x + (amount_in as u128);
    if new_input == 0 {
        return Err(AmmError::DivisionByZero);
    }
    assert(x * y <= u128::MAX) by (nonlinear_arith)
        requires
            x <= u64::MAX,
            y <= u64::MAX,
    ;
    let k: u128 = x * y;
    let new_output: u128 = k / new_input;
    proof {
        lemma_swap_amount_out_bounds(input_reserve as nat, output_reserve as nat, amount_in as nat);
    }
    let out: u128 = y - new_output;
    Ok(out as u64)
}

} // verus!
