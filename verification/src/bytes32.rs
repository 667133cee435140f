//! 32-byte values: identity keys and integrity digests.
//!
//! Identities and integrity hashes are both plain 32-byte arrays. The
//! all-zero digest is the sentinel meaning "no hash is enforced".

use vstd::prelude::*;

verus! {

/// True when every byte of the sequence is zero.
pub open spec fn is_zero_bytes(s: Seq<u8>) -> bool {
    forall|i: int| 0 <= i < s.len() ==> s[i] == 0
}

/// Byte-for-byte equality of two 32-byte values.
pub fn bytes32_eq(a: &[u8; 32], b: &[u8; 32]) -> (r: bool)
    ensures
        r <==> a@ == b@,
{
    let mut i: usize = 0;
    while i < 32
        invariant
            i <= 32,
            forall|j: int| 0 <= j < i ==> a@[j] == b@[j],
        decreases 32 - i,
    {
        if a[i] != b[i] {
            return false;
        }
        i = i + 1;
    }
    proof {
        assert(a@ =~= b@);
    }
    true
}

/// True exactly when the digest is the all-zero "unenforced" sentinel.
pub fn bytes32_is_zero(h: &[u8; 32]) -> (r: bool)
    ensures
        r <==> is_zero_bytes(h@),
{
    let mut i: usize = 0;
    while i < 32
        invariant
            i <= 32,
            forall|j: int| 0 <= j < i ==> h@[j] == 0,
        decreases 32 - i,
    {
        if h[i] != 0 {
            return false;
        }
        i = i + 1;
    }
    true
}

} // verus!
