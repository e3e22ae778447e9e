//! Ledger hashes and their base58 text.
use vstd::prelude::*;

verus! {

/// A 32-byte ledger hash (of a block, a chunk, a receipt or a message).
#[derive(Clone, Copy, Debug)]
pub struct CryptoHash {
    pub bytes: [u8; 32],
}

impl View for CryptoHash {
    type V = Seq<u8>;

    open spec fn view(&self) -> Seq<u8> {
        self.bytes@
    }
}

impl PartialEq for CryptoHash {
    fn eq(&self, o: &CryptoHash) -> (r: bool) {
        let mut i: usize = 0;
        while i < 32
            invariant
                0 <= i <= 32,
                forall|j: int| 0 <= j < i ==> self.bytes@[j] == o.bytes@[j],
            decreases 32 - i,
        {
            if self.bytes[i] != o.bytes[i] {
                return false;
            }
            i = i + 1;
        }
        assert(self.bytes@ =~= o.bytes@);
        true
    }
}

impl vstd::std_specs::cmp::PartialEqSpecImpl for CryptoHash {
    open spec fn obeys_eq_spec() -> bool {
        true
    }

    open spec fn eq_spec(&self, o: &CryptoHash) -> bool {
        self.bytes@ == o.bytes@
    }
}

impl Eq for CryptoHash {}

impl CryptoHash {
    /// Compares two hashes byte by byte.
    pub fn same_as(&self, o: &CryptoHash) -> (r: bool)
        ensures
            r == (self@ == o@),
    {
        *self == *o
    }
}

/// The 32 bytes that a base58 text decodes to, or `None` when it is not the
/// base58 text of exactly 32 bytes.
pub uninterp spec fn base58_hash(s: Seq<char>) -> Option<Seq<u8>>;

/// The base58 text of a byte string.
pub uninterp spec fn base58_text(b: Seq<u8>) -> Seq<char>;

/// Relies on `FromStr` of `near_primitives::hash::CryptoHash`: it succeeds
/// exactly when the text is base58 for 32 bytes, and yields those bytes.
#[verifier::external_body]
pub(crate) fn parse_base58_hash(s: &str) -> (r: Option<CryptoHash>)
    ensures
        match r {
            Some(h) => base58_hash(s@) == Some(h@),
            None => base58_hash(s@) is None,
        },
{
    match <near_primitives::hash::CryptoHash as std::str::FromStr>::from_str(s) {
        Ok(h) => Some(CryptoHash { bytes: h.0 }),
        Err(_) => None,
    }
}

/// Relies on `Display` of `near_primitives::hash::CryptoHash`: it writes the
/// base58 text of the 32 bytes, which `FromStr` decodes back to them.
#[verifier::external_body]
pub(crate) fn hash_to_base58(h: &CryptoHash) -> (r: String)
    ensures
        r@ == base58_text(h@),
        base58_hash(r@) == Some(h@),
{
    near_primitives::hash::CryptoHash(h.bytes).to_string()
}

} // verus!
