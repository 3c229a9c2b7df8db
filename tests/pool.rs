use amm_dex_capstone::curve::{bootstrap_shares, proportional_shares, swap_output};
use amm_dex_capstone::{
    deposit, initialize, swap, Address, AmmError, Deposit, Initialize, LiquidityPool, Mint, PoolRegistry, Swap,
    TokenAccount,
};

fn addr(tag: u8) -> Address {
    let mut bytes = [0u8; 32];
    bytes[0] = tag;
    bytes[31] = tag.wrapping_mul(7);
    Address { bytes }
}

fn pool() -> LiquidityPool {
    LiquidityPool {
        token_a_mint: addr(1),
        token_b_mint: addr(2),
        token_a_vault: addr(3),
        token_b_vault: addr(4),
        lp_mint: addr(5),
        fees: 30,
        bump: 254,
    }
}

fn account(tag: u8, amount: u64) -> TokenAccount {
    TokenAccount { key: addr(tag), amount }
}

fn deposit_ctx(vault_a: u64, vault_b: u64, supply: u64, user_a: u64, user_b: u64) -> Deposit {
    Deposit {
        pool: pool(),
        token_a_vault: account(3, vault_a),
        token_b_vault: account(4, vault_b),
        lp_mint: Mint { key: addr(5), supply },
        user_token_a: account(10, user_a),
        user_token_b: account(11, user_b),
        user_lp_account: account(12, 0),
    }
}

fn swap_ctx(vault_a: u64, vault_b: u64, user_a: u64, user_b: u64) -> Swap {
    Swap {
        pool: pool(),
        token_a_vault: account(3, vault_a),
        token_b_vault: account(4, vault_b),
        user_token_a: account(10, user_a),
        user_token_b: account(11, user_b),
    }
}

fn init_ctx(a: u8, b: u8) -> Initialize {
    Initialize {
        pool: addr(20),
        token_a_mint: addr(a),
        token_b_mint: addr(b),
        lp_mint: addr(21),
        token_a_vault: addr(22),
        token_b_vault: addr(23),
        bump: 253,
    }
}

fn deposit_snapshot(d: &Deposit) -> [u64; 7] {
    [
        d.token_a_vault.amount,
        d.token_b_vault.amount,
        d.lp_mint.supply,
        d.user_token_a.amount,
        d.user_token_b.amount,
        d.user_lp_account.amount,
        d.pool.fees,
    ]
}

fn swap_snapshot(s: &Swap) -> [u64; 4] {
    [s.token_a_vault.amount, s.token_b_vault.amount, s.user_token_a.amount, s.user_token_b.amount]
}

#[test]
fn bootstrap_deposit_mints_geometric_mean() {
    let mut ctx = deposit_ctx(0, 0, 0, 5_000_000, 5_000_000);
    let minted = deposit(&mut ctx, 1_000_000, 4_000_000).unwrap();
    assert_eq!(minted, 2_000_000);
    assert_eq!(ctx.lp_mint.supply, 2_000_000);
    assert_eq!(ctx.user_lp_account.amount, 2_000_000);
    assert_eq!(ctx.token_a_vault.amount, 1_000_000);
    assert_eq!(ctx.token_b_vault.amount, 4_000_000);
    assert_eq!(ctx.user_token_a.amount, 4_000_000);
    assert_eq!(ctx.user_token_b.amount, 1_000_000);
}

#[test]
fn bootstrap_shares_round_down() {
    assert_eq!(bootstrap_shares(3, 5), 3);
    assert_eq!(bootstrap_shares(2, 8), 4);
    assert_eq!(bootstrap_shares(10, 10), 10);
    assert_eq!(bootstrap_shares(1, 3), 1);
    assert_eq!(bootstrap_shares(0, 4_000_000), 0);
}

#[test]
fn bootstrap_shares_at_largest_amounts() {
    assert_eq!(bootstrap_shares(u64::MAX, u64::MAX), u64::MAX);
    assert_eq!(bootstrap_shares(u64::MAX, 1), 4_294_967_295);
}

#[test]
fn bootstrap_deposit_with_one_side_empty_mints_nothing() {
    let mut ctx = deposit_ctx(0, 0, 0, 100, 100);
    assert_eq!(deposit(&mut ctx, 0, 50), Ok(0));
    assert_eq!(ctx.lp_mint.supply, 0);
    assert_eq!(ctx.token_b_vault.amount, 50);
}

#[test]
fn proportional_deposit_uses_post_deposit_balances() {
    let mut ctx = deposit_ctx(1_000_000, 4_000_000, 2_000_000, 500_000, 2_000_000);
    let minted = deposit(&mut ctx, 500_000, 2_000_000).unwrap();
    assert_eq!(minted, 666_666);
    assert_eq!(ctx.token_a_vault.amount, 1_500_000);
    assert_eq!(ctx.token_b_vault.amount, 6_000_000);
    assert_eq!(ctx.lp_mint.supply, 2_666_666);
    assert_eq!(ctx.user_lp_account.amount, 666_666);
    assert_eq!(ctx.user_token_a.amount, 0);
    assert_eq!(ctx.user_token_b.amount, 0);
}

#[test]
fn proportional_shares_take_the_smaller_side() {
    assert_eq!(proportional_shares(500_000, 2_000_000, 2_000_000, 1_500_000, 6_000_000), 666_666);
    // 100 * 1000 / 1100 = 90 and 10 * 1000 / 4010 = 2
    assert_eq!(proportional_shares(100, 10, 1_000, 1_100, 4_010), 2);
    assert_eq!(proportional_shares(10, 100, 1_000, 4_010, 1_100), 2);
}

#[test]
fn deposit_conserves_each_asset() {
    let mut ctx = deposit_ctx(1_000_000, 4_000_000, 2_000_000, 700_000, 3_000_000);
    let before_a = ctx.user_token_a.amount + ctx.token_a_vault.amount;
    let before_b = ctx.user_token_b.amount + ctx.token_b_vault.amount;
    deposit(&mut ctx, 123_456, 654_321).unwrap();
    assert_eq!(ctx.user_token_a.amount + ctx.token_a_vault.amount, before_a);
    assert_eq!(ctx.user_token_b.amount + ctx.token_b_vault.amount, before_b);
}

#[test]
fn deposit_with_insufficient_funds_changes_nothing() {
    let mut ctx = deposit_ctx(1_000_000, 4_000_000, 2_000_000, 400_000, 2_000_000);
    let before = deposit_snapshot(&ctx);
    assert_eq!(deposit(&mut ctx, 500_000, 2_000_000), Err(AmmError::InsufficientFunds));
    assert_eq!(deposit_snapshot(&ctx), before);

    let mut ctx = deposit_ctx(1_000_000, 4_000_000, 2_000_000, 500_000, 1_999_999);
    let before = deposit_snapshot(&ctx);
    assert_eq!(deposit(&mut ctx, 500_000, 2_000_000), Err(AmmError::InsufficientFunds));
    assert_eq!(deposit_snapshot(&ctx), before);
}

#[test]
fn deposit_into_unknown_vault_is_unauthorized() {
    let mut ctx = deposit_ctx(0, 0, 0, 100, 100);
    ctx.token_b_vault.key = addr(99);
    assert_eq!(deposit(&mut ctx, 10, 10), Err(AmmError::Unauthorized));
    let mut ctx = deposit_ctx(0, 0, 0, 100, 100);
    ctx.lp_mint.key = addr(98);
    assert_eq!(deposit(&mut ctx, 10, 10), Err(AmmError::Unauthorized));
    assert_eq!(ctx.user_token_a.amount, 100);
}

#[test]
fn deposit_overflowing_a_vault_fails() {
    let mut ctx = deposit_ctx(u64::MAX - 5, 10, 3, 100, 100);
    let before = deposit_snapshot(&ctx);
    assert_eq!(deposit(&mut ctx, 6, 1), Err(AmmError::Overflow));
    assert_eq!(deposit_snapshot(&ctx), before);
}

#[test]
fn deposit_overflowing_share_supply_fails() {
    let mut ctx = deposit_ctx(1, 1, u64::MAX, 10, 10);
    // 1 * MAX / 2 = MAX / 2 shares, which the supply cannot take
    assert_eq!(deposit(&mut ctx, 1, 1), Err(AmmError::Overflow));
    assert_eq!(ctx.lp_mint.supply, u64::MAX);
}

#[test]
fn deposit_against_empty_vault_with_shares_fails() {
    let mut ctx = deposit_ctx(0, 10, 5, 10, 10);
    assert_eq!(deposit(&mut ctx, 0, 3), Err(AmmError::DivisionByZero));
    assert_eq!(ctx.token_b_vault.amount, 10);
}

#[test]
fn swap_pays_constant_product_output() {
    let mut ctx = swap_ctx(1_000_000, 4_000_000, 100_000, 0);
    let out = swap(&mut ctx, 100_000, true).unwrap();
    assert_eq!(out, 363_637);
    assert_eq!(ctx.token_a_vault.amount, 1_100_000);
    assert_eq!(ctx.token_b_vault.amount, 3_636_363);
    assert_eq!(ctx.user_token_a.amount, 0);
    assert_eq!(ctx.user_token_b.amount, 363_637);
}

#[test]
fn swap_in_the_other_direction() {
    let mut ctx = swap_ctx(1_000_000, 4_000_000, 0, 400_000);
    // k = 4e12, new input 4_400_000, new output 909_090
    let out = swap(&mut ctx, 400_000, false).unwrap();
    assert_eq!(out, 90_910);
    assert_eq!(ctx.token_b_vault.amount, 4_400_000);
    assert_eq!(ctx.token_a_vault.amount, 909_090);
    assert_eq!(ctx.user_token_a.amount, 90_910);
    assert_eq!(ctx.user_token_b.amount, 0);
}

#[test]
fn swap_output_matches_formula() {
    assert_eq!(swap_output(1_000_000, 4_000_000, 100_000), Ok(363_637));
    assert_eq!(swap_output(1_000_000, 4_000_000, 0), Ok(0));
    assert_eq!(swap_output(0, 0, 0), Err(AmmError::DivisionByZero));
    assert_eq!(swap_output(u64::MAX, u64::MAX, u64::MAX), Ok(9_223_372_036_854_775_808));
}

#[test]
fn swap_product_never_increases() {
    let cases: [(u64, u64, u64); 5] =
        [(1_000_000, 4_000_000, 100_000), (7, 13, 5), (1, 1, 5), (999, 1_000_003, 1), (u64::MAX, 3, 17)];
    for (x, y, a) in cases {
        let out = swap_output(x, y, a).unwrap();
        let before = (x as u128) * (y as u128);
        let after = (x as u128 + a as u128) * ((y - out) as u128);
        assert!(after <= before);
    }
}

#[test]
fn swap_cannot_drain_a_funded_pool() {
    let out = swap_output(1_000_000, 4_000_000, 1_000_000_000).unwrap();
    assert!(out < 4_000_000);
    assert_eq!(out, 3_996_004);
    // with reserves (1, 1) the rounded-down remaining output is zero
    assert_eq!(swap_output(1, 1, 5), Ok(1));
}

#[test]
fn swap_conserves_each_asset() {
    let mut ctx = swap_ctx(1_000_000, 4_000_000, 500_000, 250_000);
    let before_a = ctx.user_token_a.amount + ctx.token_a_vault.amount;
    let before_b = ctx.user_token_b.amount + ctx.token_b_vault.amount;
    swap(&mut ctx, 250_000, false).unwrap();
    swap(&mut ctx, 77_777, true).unwrap();
    assert_eq!(ctx.user_token_a.amount + ctx.token_a_vault.amount, before_a);
    assert_eq!(ctx.user_token_b.amount + ctx.token_b_vault.amount, before_b);
}

#[test]
fn swap_with_insufficient_funds_changes_nothing() {
    let mut ctx = swap_ctx(1_000_000, 4_000_000, 99_999, 0);
    let before = swap_snapshot(&ctx);
    assert_eq!(swap(&mut ctx, 100_000, true), Err(AmmError::InsufficientFunds));
    assert_eq!(swap_snapshot(&ctx), before);
}

#[test]
fn swap_errors() {
    let mut ctx = swap_ctx(0, 0, 0, 0);
    assert_eq!(swap(&mut ctx, 0, true), Err(AmmError::DivisionByZero));
    let mut ctx = swap_ctx(u64::MAX, 10, 5, 0);
    assert_eq!(swap(&mut ctx, 1, true), Err(AmmError::Overflow));
    let mut ctx = swap_ctx(10, 10, 5, u64::MAX);
    let before = swap_snapshot(&ctx);
    assert_eq!(swap(&mut ctx, 5, true), Err(AmmError::Overflow));
    assert_eq!(swap_snapshot(&ctx), before);
    let mut ctx = swap_ctx(10, 10, 5, 0);
    ctx.token_a_vault.key = addr(77);
    assert_eq!(swap(&mut ctx, 5, true), Err(AmmError::Unauthorized));
}

#[test]
fn initialize_records_pool() {
    let mut reg = PoolRegistry::new();
    assert_eq!(initialize(&mut reg, &init_ctx(1, 2)), Ok(()));
    assert_eq!(reg.len(), 1);
    let p = reg.get(0);
    assert_eq!(p.fees, 30);
    assert_eq!(p.bump, 253);
    assert_eq!(p.token_a_mint.bytes, addr(1).bytes);
    assert_eq!(p.token_b_mint.bytes, addr(2).bytes);
    assert_eq!(p.lp_mint.bytes, addr(21).bytes);
    assert_eq!(reg.position_of(&addr(1), &addr(2)), Some(0));
    assert_eq!(reg.position_of(&addr(2), &addr(1)), None);
}

#[test]
fn initialize_twice_is_rejected() {
    let mut reg = PoolRegistry::new();
    assert_eq!(initialize(&mut reg, &init_ctx(1, 2)), Ok(()));
    let mut again = init_ctx(1, 2);
    again.lp_mint = addr(40);
    again.bump = 1;
    assert_eq!(initialize(&mut reg, &again), Err(AmmError::AlreadyExists));
    assert_eq!(reg.len(), 1);
    let p = reg.get(0);
    assert_eq!(p.lp_mint.bytes, addr(21).bytes);
    assert_eq!(p.bump, 253);
    // the reversed pair is a different pool
    assert_eq!(initialize(&mut reg, &init_ctx(2, 1)), Ok(()));
    assert_eq!(reg.len(), 2);
}

#[test]
fn initialize_same_asset_twice_is_invalid() {
    let mut reg = PoolRegistry::new();
    assert_eq!(initialize(&mut reg, &init_ctx(3, 3)), Err(AmmError::InvalidAssetPair));
    assert_eq!(reg.len(), 0);
}
