use vstd::prelude::*;

verus! {

/// The 32 bytes of an account address.
#[derive(Clone, Copy, Debug)]
pub struct AccountKey {
    pub bytes: [u8; 32],
}

impl AccountKey {
    /// Whether two addresses are the same, byte for byte.
    pub fn same_as(&self, other: &AccountKey) -> (r: bool)
        ensures
            r == (self.bytes@ == other.bytes@),
    {
        let mut i: usize = 0;
        while i < 32
            invariant
                i <= 32,
                forall|j: int| 0 <= j < i ==> self.bytes@[j] == other.bytes@[j],
            decreases 32 - i,
        {
            if self.bytes[i] != other.bytes[i] {
                return false;
            }
            i = i + 1;
        }
        assert(self.bytes@ =~= other.bytes@);
        true
    }
}

/// The state of one pool: its two token mints, the vaults that hold its reserves, the mint
/// of its LP token, its swap fee in basis points, and the bump seeds of its addresses.
#[derive(Clone, Copy, Debug)]
pub struct Pool {
    pub token_a_mint: AccountKey,
    pub token_b_mint: AccountKey,
    pub vault_a: AccountKey,
    pub vault_b: AccountKey,
    pub lp_mint: AccountKey,
    pub fee_bps: u16,
    pub bump: u8,
    pub authority_bump: u8,
}

impl Pool {
    /// Bytes of account space a pool takes: the 8-byte discriminator, five addresses, the fee
    /// and the two bumps.
    pub const LEN: usize = 8 + 32 + 32 + 32 + 32 + 32 + 2 + 1 + 1;
}

} // verus!
