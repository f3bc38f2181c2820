//! Identities of reserves and oracle feeds.

use vstd::prelude::*;
use vstd::std_specs::cmp::PartialEqSpecImpl;

verus! {

/// The text of 32 bytes in base 58, as addresses are written on Solana.
pub uninterp spec fn base58_text(bytes: Seq<u8>) -> Seq<char>;

/// `Pubkey::new_from_array` keeps the 32 bytes as they are, and
/// `Pubkey::to_string` writes them in base 58: a text that depends on the
/// bytes alone.
#[verifier::external_body]
fn pubkey_to_string(bytes: &[u8; 32]) -> (r: String)
    ensures
        r@ == base58_text(bytes@),
{
    solana_program::pubkey::Pubkey::new_from_array(*bytes).to_string()
}

/// A 32-byte identity, such as the address of a reserve.
#[derive(Clone, Copy, Debug, Eq)]
pub struct Address {
    /// The bytes of the identity.
    pub bytes: [u8; 32],
}

impl PartialEq for Address {
    /// Two identities are equal when all their bytes are.
    fn eq(&self, other: &Address) -> (r: bool) {
        let mut i: usize = 0;
        while i < 32
            invariant
                i <= 32,
                forall|j: int| 0 <= j < i ==> self.bytes@[j] == other.bytes@[j],
            decreases 32 - i,
        {
            if self.bytes[i] != other.bytes[i] {
                return false;
            }
            i += 1;
        }
        assert(self.bytes@ =~= other.bytes@);
        true
    }
}

impl PartialEqSpecImpl for Address {
    open spec fn obeys_eq_spec() -> bool {
        true
    }

    open spec fn eq_spec(&self, other: &Address) -> bool {
        self.bytes@ == other.bytes@
    }
}

impl Address {
    /// The identity with the given bytes.
    pub fn new(bytes: [u8; 32]) -> (r: Address)
        ensures
            r.bytes == bytes,
    {
        Address { bytes }
    }

    /// The identity in base 58.
    pub fn to_string(&self) -> (r: String)
        ensures
            r@ == base58_text(self.bytes@),
    {
        pubkey_to_string(&self.bytes)
    }

    /// Whether the two identities are the same.
    pub fn same(&self, other: &Address) -> (r: bool)
        ensures
            r == (*self == *other),
    {
        let r = *self == *other;
        assert(self.bytes@ == other.bytes@ ==> self.bytes == other.bytes) by {
            if self.bytes@ == other.bytes@ {
                assert(self.bytes =~= other.bytes);
            }
        }
        r
    }
}

} // verus!
