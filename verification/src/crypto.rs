//! ECDSA over NIST P-384 with SHA-384, at the byte level: keys travel as
//! SEC1 DER (private) and SPKI DER (public), signatures as DER.

use vstd::prelude::*;
use vstd::string::StringExecFns;
use crate::errors::SignerError;

use p384::ecdsa::signature::{Signer, Verifier};
use sec1::{DecodeEcPrivateKey, EncodeEcPrivateKey};
use spki::{DecodePublicKey, EncodePublicKey};

verus! {

/// Whether a byte string is a well-formed SEC1 DER P-384 private key.
pub uninterp spec fn sec1_parses(der: Seq<u8>) -> bool;

/// The SPKI DER encoding of the public key belonging to a SEC1 DER private
/// key.
pub uninterp spec fn public_of_private(prv_der: Seq<u8>) -> Seq<u8>;

/// The DER signature that deterministic ECDSA (RFC 6979) with SHA-384
/// produces for a message under a private key.
pub uninterp spec fn ecdsa_p384_sign(prv_der: Seq<u8>, msg: Seq<u8>) -> Seq<u8>;

/// Whether deterministic ECDSA signing succeeds for a key and message; a
/// function of the two byte strings alone, false only with negligible
/// probability over the key.
pub uninterp spec fn ecdsa_p384_sign_ok(prv_der: Seq<u8>, msg: Seq<u8>) -> bool;

/// Whether a DER signature verifies for a message under an SPKI DER public
/// key.
pub uninterp spec fn ecdsa_p384_verifies(pub_der: Seq<u8>, msg: Seq<u8>, sig_der: Seq<u8>) -> bool;

/// Relies on `p384::ecdsa::SigningKey::random` and `to_sec1_der`: a fresh
/// key exports to well-formed SEC1 DER. The key is drawn from the system's
/// randomness, so nothing more is promised.
#[verifier::external_body]
pub(crate) fn generate_key() -> (r: Result<Vec<u8>, SignerError>)
    ensures
        r is Ok ==> sec1_parses(r.unwrap()@),
{
    let key = p384::ecdsa::SigningKey::random(&mut rand_core::OsRng);
    match key.to_sec1_der() {
        Ok(doc) => Ok(doc.as_bytes().to_vec()),
        Err(_) => Err(SignerError::Crypto(String::from_str("key export failed"))),
    }
}

/// Relies on `SigningKey::from_sec1_der`, `verifying_key` and
/// `to_public_key_der`: importing succeeds exactly on well-formed SEC1 DER,
/// and the exported SPKI DER is a function of the private key bytes.
#[verifier::external_body]
pub(crate) fn extract_public(prv_der: &[u8]) -> (r: Result<Vec<u8>, SignerError>)
    ensures
        r is Ok <==> sec1_parses(prv_der@),
        r is Ok ==> r.unwrap()@ == public_of_private(prv_der@),
{
    let key = p384::ecdsa::SigningKey::from_sec1_der(prv_der)
        .map_err(|_| SignerError::Crypto(String::from_str("key import failed")))?;
    let pub_key = key.verifying_key();
    match pub_key.to_public_key_der() {
        Ok(doc) => Ok(doc.to_vec()),
        Err(_) => Err(SignerError::Crypto(String::from_str("key export failed"))),
    }
}

/// Relies on `SigningKey::try_sign`: deterministic ECDSA per RFC 6979, so
/// both the DER signature and whether signing succeeds are functions of the
/// key and message bytes alone, and a produced signature verifies under the
/// key's public half.
#[verifier::external_body]
pub(crate) fn sign(prv_der: &[u8], msg: &[u8]) -> (r: Result<Vec<u8>, SignerError>)
    ensures
        r is Ok <==> (sec1_parses(prv_der@) && ecdsa_p384_sign_ok(prv_der@, msg@)),
        r is Ok ==> r.unwrap()@ == ecdsa_p384_sign(prv_der@, msg@),
        r is Ok ==> ecdsa_p384_verifies(public_of_private(prv_der@), msg@, r.unwrap()@),
{
    let key = p384::ecdsa::SigningKey::from_sec1_der(prv_der)
        .map_err(|_| SignerError::Crypto(String::from_str("key import failed")))?;
    let sig: p384::ecdsa::Signature = key
        .try_sign(msg)
        .map_err(|_| SignerError::Crypto(String::from_str("signing failed")))?;
    Ok(sig.to_der().as_bytes().to_vec())
}

/// Relies on `VerifyingKey::from_public_key_der`, `Signature::from_der` and
/// `Verifier::verify`: verification is a function of the three byte strings;
/// a key or signature that does not parse verifies nothing.
#[verifier::external_body]
pub(crate) fn verify(pub_der: &[u8], msg: &[u8], sig_der: &[u8]) -> (r: bool)
    ensures
        r == ecdsa_p384_verifies(pub_der@, msg@, sig_der@),
{
    let Ok(key) = p384::ecdsa::VerifyingKey::from_public_key_der(pub_der) else {
        return false;
    };
    let Ok(sig) = p384::ecdsa::Signature::from_der(sig_der) else {
        return false;
    };
    key.verify(msg, &sig).is_ok()
}

} // verus!
