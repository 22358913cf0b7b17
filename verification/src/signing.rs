//! Ed25519 keys and signatures, computed by the ed25519-dalek crate.
use vstd::prelude::*;
use ed25519_dalek::Signer;
use ed25519_dalek::Verifier;
use rand::RngCore;
use crate::error::AletheiaError;
use crate::hexfmt::{hex_encode, hex_lower};

verus! {

/// The Ed25519 verifying (public) key that ed25519-dalek derives from a
/// 32-byte secret key.
pub uninterp spec fn ed25519_public_key(secret: Seq<u8>) -> Seq<u8>;

/// The Ed25519 signature that ed25519-dalek makes of a message with a 32-byte
/// secret key (Ed25519 signing is deterministic).
pub uninterp spec fn ed25519_signature(secret: Seq<u8>, message: Seq<u8>) -> Seq<u8>;

/// What ed25519-dalek's verification says of a signature over a message under
/// a 32-byte verifying key: `Err` with the error's message when the key bytes
/// are not a valid curve point, else whether the signature is accepted.
pub uninterp spec fn ed25519_verdict(public: Seq<u8>, message: Seq<u8>, signature: Seq<u8>) -> Result<bool, Seq<char>>;

/// 32 bytes from the operating system's random source (`rand::rngs::OsRng`),
/// the way `SigningKey::generate` draws a secret key. Nothing is stated of
/// the bytes.
#[verifier::external_body]
fn random_secret_key() -> (res: [u8; 32]) {
    let mut secret = [0u8; 32];
    rand::rngs::OsRng.fill_bytes(&mut secret);
    secret
}

/// `SigningKey::from_bytes(secret).verifying_key().to_bytes()`: the contract
/// claims that the result is the key `ed25519_public_key` names.
#[verifier::external_body]
pub(crate) fn public_key_of(secret: &[u8; 32]) -> (res: [u8; 32])
    ensures
        res@ == ed25519_public_key(secret@),
{
    ed25519_dalek::SigningKey::from_bytes(secret).verifying_key().to_bytes()
}

/// `SigningKey::from_bytes(secret).sign(message).to_bytes()`: the contract
/// claims that the result is the signature `ed25519_signature` names.
#[verifier::external_body]
fn sign_message(secret: &[u8; 32], message: &[u8; 32]) -> (res: [u8; 64])
    ensures
        res@ == ed25519_signature(secret@, message@),
{
    ed25519_dalek::SigningKey::from_bytes(secret).sign(message.as_slice()).to_bytes()
}

/// `VerifyingKey::from_bytes(public)` followed by `Verifier::verify` of the
/// signature over the message. The contract claims the outcome that
/// `ed25519_verdict` names, and the correctness of Ed25519 that the crate
/// documents: a signature made with a secret key is accepted under the
/// verifying key derived from that secret key. Nothing else (in particular
/// no unforgeability) is claimed.
#[verifier::external_body]
fn check_signature(public: &[u8; 32], message: &[u8; 32], signature: &[u8; 64]) -> (res: Result<bool, String>)
    ensures
        match res {
            Ok(b) => ed25519_verdict(public@, message@, signature@) matches Ok(c) && c == b,
            Err(m) => ed25519_verdict(public@, message@, signature@) matches Err(t) && t == m@,
        },
        (exists|secret: Seq<u8>|
            secret.len() == 32 && public@ == #[trigger] ed25519_public_key(secret) && signature@
                == ed25519_signature(secret, message@)) ==> res matches Ok(true),
{
    match ed25519_dalek::VerifyingKey::from_bytes(public) {
        Ok(key) => Ok(key.verify(message.as_slice(), &ed25519_dalek::Signature::from_bytes(signature)).is_ok()),
        Err(e) => Err(e.to_string()),
    }
}

/// Generate a new Ed25519 keypair from the operating system's random source.
///
/// Returns `(signing_key_bytes, verifying_key_bytes)`; the verifying key is
/// the one derived from the signing key.
pub fn generate_keypair() -> (res: ([u8; 32], [u8; 32]))
    ensures
        res.1@ == ed25519_public_key(res.0@),
{
    let secret = random_secret_key();
    let public = public_key_of(&secret);
    (secret, public)
}

/// Sign a 32-byte message with an Ed25519 signing key. Always succeeds.
pub fn sign(signing_key: &[u8; 32], message: &[u8; 32]) -> (res: Result<[u8; 64], AletheiaError>)
    ensures
        res matches Ok(sig) && sig@ == ed25519_signature(signing_key@, message@),
{
    Ok(sign_message(signing_key, message))
}

/// Verify an Ed25519 signature over a 32-byte message.
///
/// `Ok(())` when the signature is accepted; otherwise, also when the key
/// bytes are not a verifying key, `InvalidSignature` naming the key in hex.
pub fn verify(verifying_key: &[u8; 32], message: &[u8; 32], signature: &[u8; 64]) -> (res: Result<(), AletheiaError>)
    ensures
        match ed25519_verdict(verifying_key@, message@, signature@) {
            Ok(true) => res is Ok,
            _ => res matches Err(AletheiaError::InvalidSignature { signer }) && signer@ == hex_lower(
                verifying_key@,
            ),
        },
        (exists|secret: Seq<u8>|
            secret.len() == 32 && verifying_key@ == #[trigger] ed25519_public_key(secret) && signature@
                == ed25519_signature(secret, message@)) ==> res is Ok,
{
    verdict_outcome(check_signature(verifying_key, message, signature), verifying_key)
}

/// What a verification verdict means for the caller: an accepted signature
/// is `Ok`; a rejected one, or an error (the key bytes are not a verifying
/// key), is `InvalidSignature` naming the key in hex.
pub fn verdict_outcome(verdict: Result<bool, String>, verifying_key: &[u8; 32]) -> (res: Result<(), AletheiaError>)
    ensures
        match verdict {
            Ok(true) => res is Ok,
            _ => res matches Err(AletheiaError::InvalidSignature { signer }) && signer@ == hex_lower(
                verifying_key@,
            ),
        },
{
    match verdict {
        Ok(true) => Ok(()),
        _ => Err(AletheiaError::InvalidSignature { signer: hex_encode(verifying_key) }),
    }
}

} // verus!
