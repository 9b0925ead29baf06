//! Identities: the external account identifier and the short hash under which
//! the ledger keys its records.

use vstd::prelude::*;
use vstd::std_specs::cmp::PartialEqSpecImpl;

verus! {

/// Number of digest bytes kept as the ledger's key for an identity.
pub const SHORT_HASH_LEN: usize = 20;

/// The first twenty bytes of the SHA-256 digest of an account identifier.
#[derive(Clone, Copy, Debug)]
pub struct ShortAccountHash(pub [u8; SHORT_HASH_LEN]);

impl ShortAccountHash {
    /// Keeps the leading twenty bytes of a 32-byte digest.
    pub fn from_digest(digest: &[u8; 32]) -> (r: Self)
        ensures
            r.0@ == digest@.subrange(0, 20),
    {
        let mut buf: [u8; SHORT_HASH_LEN] = [0u8; SHORT_HASH_LEN];
        let mut i: usize = 0;
        while i < SHORT_HASH_LEN
            invariant
                i <= SHORT_HASH_LEN,
                forall|j: int| 0 <= j < i ==> buf@[j] == digest@[j],
            decreases SHORT_HASH_LEN - i,
        {
            buf[i] = digest[i];
            i = i + 1;
        }
        assert(buf@ =~= digest@.subrange(0, 20));
        ShortAccountHash(buf)
    }
}

impl PartialEq for ShortAccountHash {
    /// Whether the two hashes agree byte by byte.
    fn eq(&self, other: &Self) -> (r: bool) {
        let mut i: usize = 0;
        while i < SHORT_HASH_LEN
            invariant
                i <= SHORT_HASH_LEN,
                forall|j: int| 0 <= j < i ==> self.0@[j] == other.0@[j],
            decreases SHORT_HASH_LEN - i,
        {
            if self.0[i] != other.0[i] {
                return false;
            }
            i = i + 1;
        }
        assert(self.0 =~= other.0);
        true
    }
}

impl PartialEqSpecImpl for ShortAccountHash {
    /// Equality of hashes is what `eq_spec` says.
    open spec fn obeys_eq_spec() -> bool {
        true
    }

    /// Two hashes are equal when their bytes are.
    open spec fn eq_spec(&self, other: &Self) -> bool {
        *self == *other
    }
}

/// A party to an operation: its account identifier together with the key of
/// its record. Two parties are the same party when their identifiers agree;
/// their records are found by the hash.
#[derive(Clone, Debug)]
pub struct Identity {
    pub account_id: String,
    pub hash: ShortAccountHash,
}

impl Identity {
    /// The party named `account_id`, keyed by the short form of `digest`,
    /// the SHA-256 digest of the identifier's bytes.
    pub fn new(account_id: String, digest: &[u8; 32]) -> (r: Self)
        ensures
            r.account_id == account_id,
            r.hash.0@ == digest@.subrange(0, 20),
    {
        Identity { account_id, hash: ShortAccountHash::from_digest(digest) }
    }
}

} // verus!
