//! The handshake's signature check.
//!
//! The cryptographic primitive is a black box: the library only relies on it
//! being a deterministic function of the public key, message and signature
//! bytes.

use vstd::prelude::*;

verus! {

/// What `ed25519_compact`'s signature verification returns for a public key,
/// a message and a signature, all given as raw bytes.  The result is a
/// function of these bytes alone.
pub uninterp spec fn ed25519_verifies(
    public_key: Seq<u8>,
    message: Seq<u8>,
    signature: Seq<u8>,
) -> bool;

/// Relies on `ed25519_compact`: `PublicKey::from_slice` accepts exactly
/// 32-byte inputs, `Signature::from_slice` exactly 64-byte inputs, and
/// `PublicKey::verify` deterministically checks the signature over the
/// message bytes.
#[verifier::external_body]
pub(crate) fn verify_client_signature(
    public_key: &Vec<u8>,
    message: &Vec<u8>,
    signature: &Vec<u8>,
) -> (r: bool)
    ensures
        r == ed25519_verifies(public_key@, message@, signature@),
        r ==> public_key@.len() == 32 && signature@.len() == 64,
{
    let pk = match ed25519_compact::PublicKey::from_slice(public_key) {
        Ok(pk) => pk,
        Err(_) => return false,
    };
    let sig = match ed25519_compact::Signature::from_slice(signature) {
        Ok(sig) => sig,
        Err(_) => return false,
    };
    pk.verify(message, &sig).is_ok()
}

} // verus!
