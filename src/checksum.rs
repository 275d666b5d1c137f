//! The message checksum: the first four bytes of SHA-256 applied twice.

use vstd::prelude::*;
use sha2::Digest;

verus! {

/// The SHA-256 digest of `data`.
pub uninterp spec fn sha256_of(data: Seq<u8>) -> Seq<u8>;

/// Relies on sha2's `Sha256::digest`: the 32-byte SHA-256 digest of `data`.
#[verifier::external_body]
fn sha256(data: &[u8]) -> (r: Vec<u8>)
    ensures
        r@ == sha256_of(data@),
        r@.len() == 32,
{
    sha2::Sha256::digest(data).to_vec()
}

/// The checksum of a message body.
pub open spec fn checksum_of(body: Seq<u8>) -> Seq<u8> {
    Seq::new(4, |k: int| sha256_of(sha256_of(body))[k])
}

/// The first four bytes of the double SHA-256 digest of `bytes`.
pub fn checksum(bytes: &[u8]) -> (r: [u8; 4])
    ensures
        r@ == checksum_of(bytes@),
{
    let once = sha256(bytes);
    let twice = sha256(once.as_slice());
    let r: [u8; 4] = [twice[0], twice[1], twice[2], twice[3]];
    assert(r@ =~= checksum_of(bytes@));
    r
}

} // verus!
