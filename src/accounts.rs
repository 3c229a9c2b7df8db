//! The records the pool logic reads and writes: addresses, token balances,
//! the share mint, the pool record itself, and the error taxonomy.

use vstd::prelude::*;

verus! {

/// Fee rate recorded on every new pool, in basis points (0.30%).
pub const POOL_FEE_BPS: u64 = 30;

/// A 32-byte account or asset identifier.
#[derive(Clone, Copy, Debug)]
pub struct Address {
    pub bytes: [u8; 32],
}

impl View for Address {
    type V = Seq<u8>;

    open spec fn view(&self) -> Seq<u8> {
        self.bytes@
    }
}

impl Address {
    /// Byte-wise comparison of two addresses.
    pub fn same_as(&self, other: &Address) -> (r: bool)
        ensures
            r == (self@ == other@),
    {
        let mut i: usize = 0;
        while i < 32
            invariant
                0 <= i <= 32,
                forall|j: int| 0 <= j < i ==> self.bytes@[j] == other.bytes@[j],
            decreases 32 - i,
        {
            if self.bytes[i] != other.bytes[i] {
                return false;
            }
            i = i + 1;
        }
        assert(self.bytes@ =~= other.bytes@);
        true
    }
}

/// A token balance held at an address.
#[derive(Clone, Copy, Debug)]
pub struct TokenAccount {
    pub key: Address,
    pub amount: u64,
}

/// The issuer of the pool's liquidity shares and its outstanding supply.
#[derive(Clone, Copy, Debug)]
pub struct Mint {
    pub key: Address,
    pub supply: u64,
}

/// The persistent pool record: the two assets in their fixed order, the
/// vaults holding the reserves, the share mint, the fee rate and the
/// derivation parameter of the pool's own authority.
#[derive(Clone, Copy, Debug)]
pub struct LiquidityPool {
    pub token_a_mint: Address,
    pub token_b_mint: Address,
    pub token_a_vault: Address,
    pub token_b_vault: Address,
    pub lp_mint: Address,
    pub fees: u64,
    pub bump: u8,
}

/// Why a pool operation was refused. A refused operation changes nothing.
#[derive(Clone, Copy, Debug, PartialEq, Eq, Structural)]
pub enum AmmError {
    /// A pool for this ordered pair of assets already exists.
    AlreadyExists,
    /// The two assets of a pool must differ.
    InvalidAssetPair,
    /// The source balance of a transfer is too small.
    InsufficientFunds,
    /// A balance or the share supply would exceed the 64-bit range.
    Overflow,
    /// An account handed in is not the one the pool record names.
    Unauthorized,
    /// An amount does not fit the width of the transfer primitive. The
    /// operations here never produce it: their payouts are proved to fit.
    NarrowingFailure,
    /// A pricing step would divide by an empty balance.
    DivisionByZero,
}

} // verus!
