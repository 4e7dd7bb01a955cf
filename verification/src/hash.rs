//! The hash CKB commits with: blake2b-256 personalised with `ckb-default-hash`.

use blake2b_ref::Blake2bBuilder;
use vstd::prelude::*;

verus! {

/// The 32-byte blake2b digest of `data` under CKB's personalisation.
pub uninterp spec fn ckb_blake2b_256(data: Seq<u8>) -> Seq<u8>;

/// Hashes `b` with `blake2b_ref`: a 32-byte digest, personalised `ckb-default-hash`.
/// Trusted: the digest is named, not computed here; the same bytes give the same digest.
#[verifier::external_body]
pub(crate) fn blake2b_256(b: &[u8]) -> (r: [u8; 32])
    ensures
        r@ == ckb_blake2b_256(b@),
{
    let mut out = [0u8; 32];
    let mut h = Blake2bBuilder::new(32).personal(b"ckb-default-hash").build();
    h.update(b);
    h.finalize(&mut out);
    out
}

} // verus!
