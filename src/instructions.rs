//! The three pool operations over snapshots of the accounts they touch:
//! registering a pool, depositing liquidity and swapping. Each one either
//! applies all of its balance changes or, on failure, none of them.

use vstd::prelude::*;

verus! {

use crate::accounts::{Address, AmmError, LiquidityPool, Mint, TokenAccount, POOL_FEE_BPS};
use crate::curve::{
    bootstrap_share_amount,
    bootstrap_shares,
    lemma_swap_amount_out_bounds,
    lemma_swap_cannot_drain,
    lemma_swap_product_non_increasing,
    proportional_share_amount,
    proportional_shares,
    swap_amount_out,
    swap_output,
};

// ---------------------------------------------------------------------------
// Pool registry and initialization
// ---------------------------------------------------------------------------

/// The addresses derived for a new pool and the two assets it trades.
#[derive(Clone, Copy, Debug)]
pub struct Initialize {
    pub pool: Address,
    pub token_a_mint: Address,
    pub token_b_mint: Address,
    pub lp_mint: Address,
    pub token_a_vault: Address,
    pub token_b_vault: Address,
    pub bump: u8,
}

/// Storage of pool records, at most one per ordered pair of assets.
pub struct PoolRegistry {
    pools: Vec<LiquidityPool>,
}

/// Some pool in `pools` trades `token_a_mint` against `token_b_mint`, in that order.
pub open spec fn pair_registered(pools: Seq<LiquidityPool>, token_a_mint: Seq<u8>, token_b_mint: Seq<u8>) -> bool {
    exists|i: int|
        0 <= i < pools.len() && #[trigger] pools[i].token_a_mint@ == token_a_mint
            && pools[i].token_b_mint@ == token_b_mint
}

/// No two pools share an ordered pair of assets, and no pool pairs an asset with itself.
pub open spec fn registry_wf(pools: Seq<LiquidityPool>) -> bool {
    &&& forall|i: int| 0 <= i < pools.len() ==> #[trigger] pools[i].token_a_mint@ != pools[i].token_b_mint@
    &&& forall|i: int, j: int|
        0 <= i < pools.len() && 0 <= j < pools.len() && i != j
            && #[trigger] pools[i].token_a_mint@ == #[trigger] pools[j].token_a_mint@
            ==> pools[i].token_b_mint@ != pools[j].token_b_mint@
}

/// The record a successful initialization stores.
pub open spec fn pool_record(ctx: Initialize) -> LiquidityPool {
    LiquidityPool {
        token_a_mint: ctx.token_a_mint,
        token_b_mint: ctx.token_b_mint,
        token_a_vault: ctx.token_a_vault,
        token_b_vault: ctx.token_b_vault,
        lp_mint: ctx.lp_mint,
        fees: POOL_FEE_BPS,
        bump: ctx.bump,
    }
}

/// Why initialization is refused, if it is.
pub open spec fn initialize_failure(pools: Seq<LiquidityPool>, ctx: Initialize) -> Option<AmmError> {
    if ctx.token_a_mint@ == ctx.token_b_mint@ {
        Some(AmmError::InvalidAssetPair)
    } else if pair_registered(pools, ctx.token_a_mint@, ctx.token_b_mint@) {
        Some(AmmError::AlreadyExists)
    } else {
        None
    }
}

impl View for PoolRegistry {
    type V = Seq<LiquidityPool>;

    closed spec fn view(&self) -> Seq<LiquidityPool> {
        self.pools@
    }
}

impl PoolRegistry {
    /// A registry with no pools.
    pub fn new() -> (r: PoolRegistry)
        ensures
            r@ == Seq::<LiquidityPool>::empty(),
            registry_wf(r@),
    {
        PoolRegistry { pools: Vec::new() }
    }

    /// Number of registered pools.
    pub fn len(&self) -> (r: usize)
        ensures
            r == self@.len(),
    {
        self.pools.len()
    }

    /// The pool record at position `i`.
    pub fn get(&self, i: usize) -> (r: LiquidityPool)
        requires
            i < self@.len(),
        ensures
            r == self@[i as int],
    {
        self.pools[i]
    }

    /// Position of the pool trading `token_a_mint` against `token_b_mint`, if any.
    pub fn position_of(&self, token_a_mint: &Address, token_b_mint: &Address) -> (r: Option<usize>)
        ensures
            r is None <==> !pair_registered(self@, token_a_mint@, token_b_mint@),
            r matches Some(i) ==> (i < self@.len() && self@[i as int].token_a_mint@ == token_a_mint@
                && self@[i as int].token_b_mint@ == token_b_mint@),
    {
        let mut i: usize = 0;
        while i < self.pools.len()
            invariant
                0 <= i <= self.pools@.len(),
                forall|j: int|
                    0 <= j < i ==> !(#[trigger] self.pools@[j].token_a_mint@ == token_a_mint@
                        && self.pools@[j].token_b_mint@ == token_b_mint@),
            decreases self.pools@.len() - i,
        {
            let p = &self.pools[i];
            if p.token_a_mint.same_as(token_a_mint) && p.token_b_mint.same_as(token_b_mint) {
                return Some(i);
            }
            i = i + 1;
        }
        None
    }
}

/// Registers a new pool for the ordered pair of assets in `ctx`, with a fee
/// rate of 30 basis points. Fails with `InvalidAssetPair` when the two assets
/// are the same and with `AlreadyExists` when the pair already has a pool;
/// a refusal leaves the registry as it was.
pub fn initialize(registry: &mut PoolRegistry, ctx: &Initialize) -> (r: Result<(), AmmError>)
    requires
        registry_wf(old(registry)@),
    ensures
        registry_wf(final(registry)@),
        match initialize_failure(old(registry)@, *ctx) {
            Some(e) => r == Err::<(), AmmError>(e) && final(registry)@ == old(registry)@,
            None => r == Ok::<(), AmmError>(()) && final(registry)@ == old(registry)@.push(pool_record(*ctx)),
        },
{
    if ctx.token_a_mint.same_as(&ctx.token_b_mint) {
        return Err(AmmError::InvalidAssetPair);
    }
    if registry.position_of(&ctx.token_a_mint, &ctx.token_b_mint).is_some() {
        return Err(AmmError::AlreadyExists);
    }
    let record = LiquidityPool {
        token_a_mint: ctx.token_a_mint,
        token_b_mint: ctx.token_b_mint,
        token_a_vault: ctx.token_a_vault,
        token_b_vault: ctx.token_b_vault,
        lp_mint: ctx.lp_mint,
        fees: POOL_FEE_BPS,
        bump: ctx.bump,
    };
    let ghost before = registry@;
    registry.pools.push(record);
    proof {
        let after = registry@;
        assert(after == before.push(record));
        assert forall|i: int, j: int|
            0 <= i < after.len() && 0 <= j < after.len() && i != j
                && #[trigger] after[i].token_a_mint@ == #[trigger] after[j].token_a_mint@
            implies after[i].token_b_mint@ != after[j].token_b_mint@ by {
            if i == before.len() {
                assert(before[j] == after[j]);
            } else if j == before.len() {
                assert(before[i] == after[i]);
            }
        }
    }
    Ok(())
}

/// Once a pair has a pool, a second initialization for the same ordered
/// pair of assets is refused with `AlreadyExists`, whatever addresses it
/// brings.
pub proof fn lemma_initialize_twice_rejected(pools: Seq<LiquidityPool>, first: Initialize, second: Initialize)
    requires
        initialize_failure(pools, first) is None,
        second.token_a_mint@ == first.token_a_mint@,
        second.token_b_mint@ == first.token_b_mint@,
    ensures
        initialize_failure(pools.push(pool_record(first)), second) == Some(AmmError::AlreadyExists),
{
    let after = pools.push(pool_record(first));
    let n = pools.len() as int;
    assert(after[n] == pool_record(first));
    assert(after[n].token_a_mint@ == second.token_a_mint@ && after[n].token_b_mint@ == second.token_b_mint@);
    assert(pair_registered(after, second.token_a_mint@, second.token_b_mint@));
}

// ---------------------------------------------------------------------------
// Deposit
// ---------------------------------------------------------------------------

/// The accounts a deposit reads and writes: the pool record, its two vaults
/// and share mint, and the depositor's balances of both assets and of shares.
#[derive(Clone, Copy, Debug)]
pub struct Deposit {
    pub pool: LiquidityPool,
    pub token_a_vault: TokenAccount,
    pub token_b_vault: TokenAccount,
    pub lp_mint: Mint,
    pub user_token_a: TokenAccount,
    pub user_token_b: TokenAccount,
    pub user_lp_account: TokenAccount,
}

/// The vaults and share mint handed in are the ones the pool record names.
pub open spec fn deposit_accounts_match(ctx: Deposit) -> bool {
    &&& ctx.token_a_vault.key@ == ctx.pool.token_a_vault@
    &&& ctx.token_b_vault.key@ == ctx.pool.token_b_vault@
    &&& ctx.lp_mint.key@ == ctx.pool.lp_mint@
}

/// Shares owed for depositing `amount_a` and `amount_b`: the geometric mean
/// when no shares exist yet, else the proportional amount against the vault
/// balances after the deposit.
pub open spec fn deposit_share_amount(ctx: Deposit, amount_a: nat, amount_b: nat) -> nat {
    if ctx.lp_mint.supply == 0 {
        bootstrap_share_amount(amount_a, amount_b)
    } else {
        proportional_share_amount(
            amount_a,
            amount_b,
            ctx.lp_mint.supply as nat,
            (ctx.token_a_vault.amount + amount_a) as nat,
            (ctx.token_b_vault.amount + amount_b) as nat,
        )
    }
}

/// Why a deposit is refused, if it is, in the order the steps are taken:
/// the accounts, the transfer of asset A, the transfer of asset B, the share
/// computation, and the mint.
pub open spec fn deposit_failure(ctx: Deposit, amount_a: u64, amount_b: u64) -> Option<AmmError> {
    if !deposit_accounts_match(ctx) {
        Some(AmmError::Unauthorized)
    } else if ctx.user_token_a.amount < amount_a {
        Some(AmmError::InsufficientFunds)
    } else if ctx.token_a_vault.amount + amount_a > u64::MAX {
        Some(AmmError::Overflow)
    } else if ctx.user_token_b.amount < amount_b {
        Some(AmmError::InsufficientFunds)
    } else if ctx.token_b_vault.amount + amount_b > u64::MAX {
        Some(AmmError::Overflow)
    } else if ctx.lp_mint.supply != 0 && (ctx.token_a_vault.amount + amount_a == 0
        || ctx.token_b_vault.amount + amount_b == 0) {
        Some(AmmError::DivisionByZero)
    } else if ctx.lp_mint.supply + deposit_share_amount(ctx, amount_a as nat, amount_b as nat) > u64::MAX
        || ctx.user_lp_account.amount + deposit_share_amount(ctx, amount_a as nat, amount_b as nat)
        > u64::MAX {
        Some(AmmError::Overflow)
    } else {
        None
    }
}

/// The accounts after a deposit of `amount_a` and `amount_b` that mints `minted` shares.
pub open spec fn deposit_applied(ctx: Deposit, amount_a: u64, amount_b: u64, minted: nat) -> Deposit {
    Deposit {
        token_a_vault: TokenAccount { amount: (ctx.token_a_vault.amount + amount_a) as u64, ..ctx.token_a_vault },
        token_b_vault: TokenAccount { amount: (ctx.token_b_vault.amount + amount_b) as u64, ..ctx.token_b_vault },
        lp_mint: Mint { supply: (ctx.lp_mint.supply + minted) as u64, ..ctx.lp_mint },
        user_token_a: TokenAccount { amount: (ctx.user_token_a.amount - amount_a) as u64, ..ctx.user_token_a },
        user_token_b: TokenAccount { amount: (ctx.user_token_b.amount - amount_b) as u64, ..ctx.user_token_b },
        user_lp_account: TokenAccount {
            amount: (ctx.user_lp_account.amount + minted) as u64,
            ..ctx.user_lp_account
        },
        ..ctx
    }
}

/// Moves `amount_a` of asset A and `amount_b` of asset B from the depositor
/// into the pool's vaults and mints the shares owed to the depositor, which
/// it returns. On any failure nothing changes.
pub fn deposit(ctx: &mut Deposit, amount_a: u64, amount_b: u64) -> (r: Result<u64, AmmError>)
    ensures
        match deposit_failure(*old(ctx), amount_a, amount_b) {
            Some(e) => r == Err::<u64, AmmError>(e),
            None => r == Ok::<u64, AmmError>(
                deposit_share_amount(*old(ctx), amount_a as nat, amount_b as nat) as u64,
            ),
        },
        r is Err ==> *final(ctx) == *old(ctx),
        r matches Ok(minted) ==> *final(ctx) == deposit_applied(*old(ctx), amount_a, amount_b, minted as nat),
        old(ctx).lp_mint.supply == 0 ==> (r matches Ok(minted) ==> minted == bootstrap_share_amount(
            amount_a as nat,
            amount_b as nat,
        )),
        old(ctx).lp_mint.supply != 0 ==> (r matches Ok(minted) ==> minted == proportional_share_amount(
            amount_a as nat,
            amount_b as nat,
            old(ctx).lp_mint.supply as nat,
            (old(ctx).token_a_vault.amount + amount_a) as nat,
            (old(ctx).token_b_vault.amount + amount_b) as nat,
        )),
        final(ctx).user_token_a.amount + final(ctx).token_a_vault.amount == old(ctx).user_token_a.amount
            + old(ctx).token_a_vault.amount,
        final(ctx).user_token_b.amount + final(ctx).token_b_vault.amount == old(ctx).user_token_b.amount
            + old(ctx).token_b_vault.amount,
        final(ctx).lp_mint.supply - old(ctx).lp_mint.supply == final(ctx).user_lp_account.amount
            - old(ctx).user_lp_account.amount,
{
    if !(ctx.token_a_vault.key.same_as(&ctx.pool.token_a_vault) && ctx.token_b_vault.key.same_as(
        &ctx.pool.token_b_vault,
    ) && ctx.lp_mint.key.same_as(&ctx.pool.lp_mint)) {
        return Err(AmmError::Unauthorized);
    }
    if ctx.user_token_a.amount < amount_a {
        return Err(AmmError::InsufficientFunds);
    }
    if ctx.token_a_vault.amount > u64::MAX - amount_a {
        return Err(AmmError::Overflow);
    }
    let vault_a: u64 = ctx.token_a_vault.amount + amount_a;
    if ctx.user_token_b.amount < amount_b {
        return Err(AmmError::InsufficientFunds);
    }
    if ctx.token_b_vault.amount > u64::MAX - amount_b {
        return Err(AmmError::Overflow);
    }
    let vault_b: u64 = ctx.token_b_vault.amount + amount_b;
    let supply = ctx.lp_mint.supply;
    let minted: u64 = if supply == 0 {
        bootstrap_shares(amount_a, amount_b)
    } else {
        if vault_a == 0 || vault_b == 0 {
            return Err(AmmError::DivisionByZero);
        }
        proportional_shares(amount_a, amount_b, supply, vault_a, vault_b)
    };
    if supply > u64::MAX - minted || ctx.user_lp_account.amount > u64::MAX - minted {
        return Err(AmmError::Overflow);
    }
    ctx.user_token_a.amount = ctx.user_token_a.amount - amount_a;
    ctx.user_token_b.amount = ctx.user_token_b.amount - amount_b;
    ctx.token_a_vault.amount = vault_a;
    ctx.token_b_vault.amount = vault_b;
    ctx.lp_mint.supply = supply + minted;
    ctx.user_lp_account.amount = ctx.user_lp_account.amount + minted;
    Ok(minted)
}

// ---------------------------------------------------------------------------
// Swap
// ---------------------------------------------------------------------------

/// The accounts a swap reads and writes: the pool record, its two vaults and
/// the trader's balances of both assets.
#[derive(Clone, Copy, Debug)]
pub struct Swap {
    pub pool: LiquidityPool,
    pub token_a_vault: TokenAccount,
    pub token_b_vault: TokenAccount,
    pub user_token_a: TokenAccount,
    pub user_token_b: TokenAccount,
}

/// The vaults handed in are the ones the pool record names.
pub open spec fn swap_accounts_match(ctx: Swap) -> bool {
    &&& ctx.token_a_vault.key@ == ctx.pool.token_a_vault@
    &&& ctx.token_b_vault.key@ == ctx.pool.token_b_vault@
}

/// Balances on the two sides of a swap, `(input vault, output vault,
/// trader's input balance, trader's output balance)`: asset A goes in when
/// `is_token_a` holds, asset B otherwise.
pub open spec fn swap_sides(ctx: Swap, is_token_a: bool) -> (u64, u64, u64, u64) {
    if is_token_a {
        (ctx.token_a_vault.amount, ctx.token_b_vault.amount, ctx.user_token_a.amount, ctx.user_token_b.amount)
    } else {
        (ctx.token_b_vault.amount, ctx.token_a_vault.amount, ctx.user_token_b.amount, ctx.user_token_a.amount)
    }
}

/// What a swap of `amount_in` pays out, against the reserves before it.
pub open spec fn swap_payout(ctx: Swap, amount_in: u64, is_token_a: bool) -> int {
    let (vault_in, vault_out, _, _) = swap_sides(ctx, is_token_a);
    swap_amount_out(vault_in as nat, vault_out as nat, amount_in as nat)
}

/// Why a swap is refused, if it is, in the order the steps are taken: the
/// accounts, the transfer in, the pricing, and the transfer out.
pub open spec fn swap_failure(ctx: Swap, amount_in: u64, is_token_a: bool) -> Option<AmmError> {
    let (vault_in, vault_out, user_in, user_out) = swap_sides(ctx, is_token_a);
    if !swap_accounts_match(ctx) {
        Some(AmmError::Unauthorized)
    } else if user_in < amount_in {
        Some(AmmError::InsufficientFunds)
    } else if vault_in + amount_in > u64::MAX {
        Some(AmmError::Overflow)
    } else if vault_in + amount_in == 0 {
        Some(AmmError::DivisionByZero)
    } else if user_out + swap_payout(ctx, amount_in, is_token_a) > u64::MAX {
        Some(AmmError::Overflow)
    } else {
        None
    }
}

/// The accounts after a swap that takes `amount_in` and pays out `amount_out`.
pub open spec fn swap_applied(ctx: Swap, amount_in: u64, is_token_a: bool, amount_out: u64) -> Swap {
    if is_token_a {
        Swap {
            token_a_vault: TokenAccount { amount: (ctx.token_a_vault.amount + amount_in) as u64, ..ctx.token_a_vault },
            token_b_vault: TokenAccount { amount: (ctx.token_b_vault.amount - amount_out) as u64, ..ctx.token_b_vault },
            user_token_a: TokenAccount { amount: (ctx.user_token_a.amount - amount_in) as u64, ..ctx.user_token_a },
            user_token_b: TokenAccount { amount: (ctx.user_token_b.amount + amount_out) as u64, ..ctx.user_token_b },
            ..ctx
        }
    } else {
        Swap {
            token_b_vault: TokenAccount { amount: (ctx.token_b_vault.amount + amount_in) as u64, ..ctx.token_b_vault },
            token_a_vault: TokenAccount { amount: (ctx.token_a_vault.amount - amount_out) as u64, ..ctx.token_a_vault },
            user_token_b: TokenAccount { amount: (ctx.user_token_b.amount - amount_in) as u64, ..ctx.user_token_b },
            user_token_a: TokenAccount { amount: (ctx.user_token_a.amount + amount_out) as u64, ..ctx.user_token_a },
            ..ctx
        }
    }
}

/// Moves `amount_in` of the input asset (A when `is_token_a` holds, else B)
/// from the trader into its vault and pays the constant-product output out
/// of the other vault to the trader, returning that output. On any failure
/// nothing changes.
pub fn swap(ctx: &mut Swap, amount_in: u64, is_token_a: bool) -> (r: Result<u64, AmmError>)
    ensures
        match swap_failure(*old(ctx), amount_in, is_token_a) {
            Some(e) => r == Err::<u64, AmmError>(e),
            None => r == Ok::<u64, AmmError>(swap_payout(*old(ctx), amount_in, is_token_a) as u64),
        },
        r is Err ==> *final(ctx) == *old(ctx),
        r matches Ok(out) ==> *final(ctx) == swap_applied(*old(ctx), amount_in, is_token_a, out),
        r matches Ok(out) ==> out <= swap_sides(*old(ctx), is_token_a).1,
        r is Ok ==> swap_sides(*final(ctx), is_token_a).0 * swap_sides(*final(ctx), is_token_a).1
            <= swap_sides(*old(ctx), is_token_a).0 * swap_sides(*old(ctx), is_token_a).1,
        r matches Ok(out) ==> (amount_in > 0 && swap_sides(*old(ctx), is_token_a).0 * swap_sides(
            *old(ctx),
            is_token_a,
        ).1 >= swap_sides(*old(ctx), is_token_a).0 + amount_in ==> out < swap_sides(*old(ctx), is_token_a).1),
        final(ctx).user_token_a.amount + final(ctx).token_a_vault.amount == old(ctx).user_token_a.amount
            + old(ctx).token_a_vault.amount,
        final(ctx).user_token_b.amount + final(ctx).token_b_vault.amount == old(ctx).user_token_b.amount
            + old(ctx).token_b_vault.amount,
{
    if !(ctx.token_a_vault.key.same_as(&ctx.pool.token_a_vault) && ctx.token_b_vault.key.same_as(
        &ctx.pool.token_b_vault,
    )) {
        return Err(AmmError::Unauthorized);
    }
    let (vault_in, vault_out, user_in, user_out) = if is_token_a {
        (ctx.token_a_vault.amount, ctx.token_b_vault.amount, ctx.user_token_a.amount, ctx.user_token_b.amount)
    } else {
        (ctx.token_b_vault.amount, ctx.token_a_vault.amount, ctx.user_token_b.amount, ctx.user_token_a.amount)
    };
    if user_in < amount_in {
        return Err(AmmError::InsufficientFunds);
    }
    if vault_in > u64::MAX - amount_in {
        return Err(AmmError::Overflow);
    }
    let amount_out = match swap_output(vault_in, vault_out, amount_in) {
        Ok(out) => out,
        Err(e) => {
            return Err(e);
        },
    };
    proof {
        lemma_swap_amount_out_bounds(vault_in as nat, vault_out as nat, amount_in as nat);
        lemma_swap_product_non_increasing(vault_in as nat, vault_out as nat, amount_in as nat);
        if amount_in > 0 && vault_in * vault_out >= vault_in + amount_in {
            lemma_swap_cannot_drain(vault_in as nat, vault_out as nat, amount_in as nat);
        }
    }
    if user_out > u64::MAX - amount_out {
        return Err(AmmError::Overflow);
    }
    if is_token_a {
        ctx.user_token_a.amount = user_in - amount_in;
        ctx.token_a_vault.amount = vault_in + amount_in;
        ctx.token_b_vault.amount = vault_out - amount_out;
        ctx.user_token_b.amount = user_out + amount_out;
    } else {
        ctx.user_token_b.amount = user_in - amount_in;
        ctx.token_b_vault.amount = vault_in + amount_in;
        ctx.token_a_vault.amount = vault_out - amount_out;
        ctx.user_token_a.amount = user_out + amount_out;
    }
    Ok(amount_out)
}

} // verus!
