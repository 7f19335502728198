use vstd::prelude::*;

verus! {

// The blind-signature primitives themselves (point arithmetic on secp256k1)
// are supplied by the cdk crate and are not reimplemented here; this module
// declares the outside types and wraps the calls the engine makes.

#[verifier::external_type_specification]
#[verifier::external_body]
pub struct ExPublicKey(cdk::nuts::PublicKey);

#[verifier::external_type_specification]
#[verifier::external_body]
pub struct ExSecretKey(cdk::nuts::SecretKey);

#[verifier::external_type_specification]
#[verifier::external_body]
pub struct ExDhkeError(cdk::dhke::Error);

/// Relies on cdk::secret::Secret::generate: a fresh secret is 32 random bytes
/// hex-encoded, so its byte serialization is 64 bytes long. The value itself
/// is random: nothing else is assumed of it.
#[verifier::external_body]
pub(crate) fn generate_secret_bytes() -> (r: Vec<u8>)
    ensures
        r@.len() == 64,
{
    cdk::secret::Secret::generate().to_bytes()
}

/// Relies on cdk::dhke::blind_message, called without a caller-supplied
/// blinding factor: it draws a fresh random factor `r` and returns
/// `(hash_to_curve(secret) + r*G, r)`. The factor is random, so nothing is
/// assumed of the returned pair; hash_to_curve may fail, so neither is
/// success.
#[verifier::external_body]
pub(crate) fn blind_secret(secret: &Vec<u8>) -> Result<
    (cdk::nuts::PublicKey, cdk::nuts::SecretKey),
    cdk::dhke::Error,
> {
    cdk::dhke::blind_message(secret.as_slice(), None)
}

/// Relies on cdk::dhke::unblind_message: computes `C_ - r*K`, failing only on
/// invalid point arithmetic. The resulting point is opaque here.
#[verifier::external_body]
pub(crate) fn unblind_signature(
    blinded: &cdk::nuts::PublicKey,
    factor: &cdk::nuts::SecretKey,
    mint_key: &cdk::nuts::PublicKey,
) -> Result<cdk::nuts::PublicKey, cdk::dhke::Error> {
    cdk::dhke::unblind_message(blinded, factor, mint_key)
}

/// Relies on cdk::nuts::PublicKey being Copy: hands back the same point.
#[verifier::external_body]
pub(crate) fn copy_pubkey(p: &cdk::nuts::PublicKey) -> (r: cdk::nuts::PublicKey)
    ensures
        r == *p,
{
    *p
}

} // verus!
