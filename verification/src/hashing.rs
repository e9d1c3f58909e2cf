//! The content integrity layer: deterministic fingerprints of byte content.
//!
//! Records never store raw description or asset bytes; they store the
//! blake2-256 digest.  Both the registration batch path and the update
//! path go through the same [`fingerprint`] function, so content supplied
//! later can be matched against a previously stored fingerprint.

use vstd::prelude::*;

verus! {

/// The blake2-256 digest of `bytes`, as the 32-byte sequence that
/// [`fingerprint`] returns.  The digest is a function of the input bytes
/// alone; nothing further is assumed about its value.
pub uninterp spec fn fingerprint_of(bytes: Seq<u8>) -> Seq<u8>;

/// Relies on sp_crypto_hashing::blake2_256: a 32-byte blake2b digest
/// determined by the input bytes alone.
#[verifier::external_body]
pub fn fingerprint(bytes: &Vec<u8>) -> (digest: Vec<u8>)
    ensures
        digest@ == fingerprint_of(bytes@),
        digest@.len() == 32,
{
    sp_crypto_hashing::blake2_256(bytes).to_vec()
}

} // verus!
