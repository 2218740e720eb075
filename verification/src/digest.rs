//! Hashing for the contract templates and the media protocols. The digest
//! itself is delegated to an outside library; everything around it is
//! ordinary verified code.

use vstd::prelude::*;

use sha2::Digest;

use crate::types::Sha256;

verus! {

/// The SHA-256 digest of a byte string: a function of the input bytes alone.
pub uninterp spec fn sha256_of(data: Seq<u8>) -> Seq<u8>;

/// Relies on sha2::Sha256 (Digest::digest): the 32-byte SHA-256 digest of the
/// input, depending on the input bytes alone.
#[verifier::external_body]
fn sha256_digest(data: &Vec<u8>) -> (r: [u8; 32])
    ensures
        r@ == sha256_of(data@),
{
    let d = sha2::Sha256::digest(data.as_slice());
    let mut out = [0u8; 32];
    out.copy_from_slice(d.as_slice());
    out
}

/// Computes the SHA-256 digest of a message.
pub fn sha256(msg: &Vec<u8>) -> (r: Sha256)
    ensures
        r.0@ == sha256_of(msg@),
        r.0@.len() == 32,
{
    Sha256(sha256_digest(msg))
}

/// Computes the hash-gate digest of a combined input.
pub fn compute_sha_gate(input: &Vec<u8>) -> (r: Sha256)
    ensures
        r.0@ == sha256_of(input@),
{
    sha256(input)
}

/// Resolves a merkle branch against its proof. A placeholder: every branch
/// resolves to the all-zero root.
pub fn merkle_proof(_branch: &Vec<u8>, _proof_data: &Vec<u8>) -> (r: Sha256)
    ensures
        r.0@ == Seq::<u8>::new(32, |i: int| 0u8),
{
    let out = [0u8; 32];
    proof {
        assert(out@ =~= Seq::<u8>::new(32, |i: int| 0u8));
    }
    Sha256(out)
}

/// Whether two digests are the same bytes.
pub fn digest_eq(a: &Sha256, b: &Sha256) -> (r: bool)
    ensures
        r == (a.0@ == b.0@),
{
    let mut i: usize = 0;
    while i < 32
        invariant
            i <= 32,
            forall|j: int| 0 <= j < i ==> a.0@[j] == b.0@[j],
        decreases 32 - i,
    {
        if a.0[i] != b.0[i] {
            proof {
                assert(a.0@[i as int] != b.0@[i as int]);
            }
            return false;
        }
        i = i + 1;
    }
    proof {
        assert(a.0@ =~= b.0@);
    }
    true
}

} // verus!
