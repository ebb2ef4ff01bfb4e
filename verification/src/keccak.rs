use vstd::prelude::*;

verus! {

/// The Keccak-256 digest of a byte string, named but not defined here: it
/// depends on the input bytes alone, so equal inputs give equal digests.
pub uninterp spec fn keccak_of(input: Seq<u8>) -> Seq<u8>;

/// Relies on tiny_keccak's `Keccak::v256` with `update` and `finalize`:
/// the digest is a function of the input bytes alone and is 32 bytes long.
#[verifier::external_body]
pub(crate) fn keccak256_digest(input: &Vec<u8>) -> (r: Vec<u8>)
    ensures
        r@ == keccak_of(input@),
        r@.len() == 32,
{
    let mut hasher = tiny_keccak::Keccak::v256();
    let mut output = [0u8; 32];
    tiny_keccak::Hasher::update(&mut hasher, input.as_slice());
    tiny_keccak::Hasher::finalize(hasher, &mut output);
    output.to_vec()
}

} // verus!
