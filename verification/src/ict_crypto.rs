//! The cryptography that the broker leaves to others: RSA keys, signatures
//! and encryption, one-time codes, and the clock they are checked against.

use vstd::prelude::*;
use rsa::pkcs8::{DecodePublicKey, EncodePublicKey};
use rand::SeedableRng;
use rsa::signature::Verifier;
use crate::ict_config::Algorithm;

verus! {

/// Why a public key could not be decoded or encoded.
#[verifier::external_type_specification]
#[verifier::external_body]
pub struct ExSpkiError(rsa::pkcs8::spki::Error);

/// Why an RSA operation failed.
#[verifier::external_type_specification]
#[verifier::external_body]
pub struct ExRsaError(rsa::Error);

/// Why no code generator could be built.
#[verifier::external_type_specification]
#[verifier::external_body]
pub struct ExTotpUrlError(totp_rs::TotpUrlError);

/// A reading of the clock.
#[verifier::external_type_specification]
#[verifier::external_body]
pub struct ExSystemTime(std::time::SystemTime);

/// Why one reading of the clock could not be measured from another.
#[verifier::external_type_specification]
#[verifier::external_body]
pub struct ExSystemTimeError(std::time::SystemTimeError);

/// The DER encoding (SubjectPublicKeyInfo) of the RSA public key that the
/// PEM text `pem` holds; `None` where `pem` holds no such key.
pub uninterp spec fn public_key_of_pem(pem: Seq<char>) -> Option<Seq<u8>>;

/// The DER encoding (SubjectPublicKeyInfo) of the RSA public key that the
/// DER bytes `der` hold; `None` where `der` holds no such key.
pub uninterp spec fn public_key_of_der(der: Seq<u8>) -> Option<Seq<u8>>;

/// Whether `signature` is the RSASSA-PKCS1-v1_5 signature with SHA-256 of
/// `message` under the public key in the DER bytes `key`; `None` where `key`
/// holds no RSA public key.
pub uninterp spec fn signature_verdict(
    key: Seq<u8>,
    message: Seq<u8>,
    signature: Seq<u8>,
) -> Option<bool>;

/// Whether `token` is the one-time code of `digits` digits that `secret`
/// gives under `algorithm` for the time step with the number `counter`, or
/// for one of the `skew` steps before or after it. The steps are counted from
/// the start of Unix time.
pub uninterp spec fn totp_accepts(
    algorithm: Algorithm,
    digits: usize,
    skew: u8,
    secret: Seq<u8>,
    token: Seq<char>,
    counter: u64,
) -> bool;

/// The ciphertext of `message` under the RSA public key in the PEM text
/// `pem`, with PKCS#1 v1.5 padding whose bytes are drawn from the generator
/// that `seed` starts; `None` where `pem` holds no key, or the key is too
/// short for `message`.
pub uninterp spec fn wrapped_under(pem: Seq<char>, message: Seq<u8>, seed: Seq<u8>) -> Option<
    Seq<u8>,
>;

/// The length in bytes of the modulus of the RSA public key in the PEM text
/// `pem`, which is the length of every ciphertext under it; `None` where
/// `pem` holds no key.
pub uninterp spec fn modulus_length(pem: Seq<char>) -> Option<nat>;

/// Whether a code generator can be built: the codes have 6, 7 or 8 digits
/// and the secret has 128 bits or more.
pub open spec fn buildable(digits: usize, secret: Seq<u8>) -> bool {
    6 <= digits <= 8 && secret.len() >= 16
}

/// The times at which a code can be checked without leaving the range of the
/// clock: `skew` whole steps lie before `time`, and `skew` after it.
pub open spec fn checkable_time(skew: u8, step: u64, time: u64) -> bool {
    &&& step > 0
    &&& time / step >= skew
    &&& (time / step + skew) * step <= u64::MAX
}

/// Calls `RsaPublicKey::from_public_key_pem` and encodes the key with
/// `to_public_key_der`. Trusted: the call succeeds exactly where `pem` holds
/// an RSA public key, and gives that key's DER encoding.
#[verifier::external_body]
pub(crate) fn public_key_from_pem(pem: &str) -> (r: Result<Vec<u8>, rsa::pkcs8::spki::Error>)
    ensures
        match r {
            Ok(der) => public_key_of_pem(pem@) == Some(der@),
            Err(_) => public_key_of_pem(pem@) is None,
        },
{
    let key = rsa::RsaPublicKey::from_public_key_pem(pem)?;
    Ok(key.to_public_key_der()?.into_vec())
}

/// Calls `RsaPublicKey::from_public_key_der` and encodes the key again with
/// `to_public_key_der`. Trusted: the call succeeds exactly where `der` holds
/// an RSA public key, and gives that key's DER encoding.
#[verifier::external_body]
pub(crate) fn public_key_from_der(der: &Vec<u8>) -> (r: Result<Vec<u8>, rsa::pkcs8::spki::Error>)
    ensures
        match r {
            Ok(key) => public_key_of_der(der@) == Some(key@),
            Err(_) => public_key_of_der(der@) is None,
        },
{
    let key = rsa::RsaPublicKey::from_public_key_der(der)?;
    Ok(key.to_public_key_der()?.into_vec())
}

/// Calls `Verifier::verify` of `rsa::pkcs1v15::VerifyingKey<Sha256>` with
/// the key decoded from `key` (`RsaPublicKey::from_public_key_der`) and the
/// signature made of `signature` (`Signature::try_from`). Trusted: the call
/// fails exactly where `key` holds no key, and otherwise says whether the
/// signature verifies.
#[verifier::external_body]
pub(crate) fn verify_signature(key: &Vec<u8>, message: &[u8], signature: &Vec<u8>) -> (r: Result<
    bool,
    rsa::pkcs8::spki::Error,
>)
    ensures
        match r {
            Ok(valid) => signature_verdict(key@, message@, signature@) == Some(valid),
            Err(_) => signature_verdict(key@, message@, signature@) is None,
        },
{
    let key = rsa::RsaPublicKey::from_public_key_der(key)?;
    let verifier = rsa::pkcs1v15::VerifyingKey::<rsa::sha2::Sha256>::new(key);
    match rsa::pkcs1v15::Signature::try_from(signature.as_slice()) {
        Ok(signature) => Ok(verifier.verify(message, &signature).is_ok()),
        Err(_) => Ok(false),
    }
}

/// Calls `RngCore::fill_bytes` of `rand::rngs::OsRng` on 32 bytes. They are
/// random, so nothing is said of them.
#[verifier::external_body]
pub(crate) fn fresh_seed() -> (seed: [u8; 32]) {
    let mut seed = [0u8; 32];
    rand::RngCore::fill_bytes(&mut rand::rngs::OsRng, &mut seed);
    seed
}

/// Calls `RsaPublicKey::encrypt` with `Pkcs1v15Encrypt` on the key decoded
/// from `pem` (`RsaPublicKey::from_public_key_pem`); the padding is drawn
/// from `rand::rngs::StdRng`, started from `seed` (`SeedableRng::from_seed`).
/// Trusted: the outer result fails exactly where `pem` holds no key; the
/// encryption fails exactly where `message` and 11 bytes of padding do not
/// fit in the modulus; a ciphertext is as long as the modulus
/// (`PublicKeyParts::size`) and is the same whenever key, message and seed
/// are.
#[verifier::external_body]
pub(crate) fn encrypt_with(pem: &str, message: &[u8], seed: [u8; 32]) -> (r: Result<
    Result<Vec<u8>, rsa::Error>,
    rsa::pkcs8::spki::Error,
>)
    ensures
        match r {
            Ok(Ok(cipher)) => wrapped_under(pem@, message@, seed@) == Some(cipher@)
                && modulus_length(pem@) == Some(cipher@.len()) && message@.len() + 11
                <= cipher@.len(),
            Ok(Err(_)) => wrapped_under(pem@, message@, seed@) is None && (modulus_length(
                pem@,
            ) matches Some(k) && message@.len() + 11 > k),
            Err(_) => wrapped_under(pem@, message@, seed@) is None && modulus_length(pem@)
                is None && public_key_of_pem(pem@) is None,
        },
{
    let key = rsa::RsaPublicKey::from_public_key_pem(pem)?;
    let mut padding = rand::rngs::StdRng::from_seed(seed);
    Ok(key.encrypt(&mut padding, rsa::Pkcs1v15Encrypt, message))
}

/// Calls `totp_rs::Secret::generate_secret`. Trusted: the secret has 20
/// bytes. They are random, so nothing else is said of them.
#[verifier::external_body]
pub(crate) fn fresh_secret() -> (secret: Vec<u8>)
    ensures
        secret@.len() == 20,
{
    match totp_rs::Secret::generate_secret() {
        totp_rs::Secret::Raw(bytes) => bytes,
        totp_rs::Secret::Encoded(text) => text.into_bytes(),
    }
}

/// Calls `totp_rs::TOTP::new` and then `TOTP::check` on the generator.
/// Trusted: the generator is built exactly where `digits` is 6, 7 or 8 and
/// `secret` has 16 bytes or more, and the check then says whether `token` is
/// accepted at `time`, of which it reads no more than the number of its
/// step. The check computes with `time` unchecked, so `requires` keeps it
/// where nothing overflows.
#[verifier::external_body]
pub(crate) fn totp_check(
    algorithm: Algorithm,
    digits: usize,
    skew: u8,
    step: u64,
    secret: &Vec<u8>,
    token: &str,
    time: u64,
) -> (r: Result<bool, totp_rs::TotpUrlError>)
    requires
        checkable_time(skew, step, time),
    ensures
        match r {
            Ok(accepted) => buildable(digits, secret@) && accepted == totp_accepts(
                algorithm,
                digits,
                skew,
                secret@,
                token@,
                (time / step) as u64,
            ),
            Err(_) => !buildable(digits, secret@),
        },
{
    let algorithm = match algorithm {
        Algorithm::SHA1 => totp_rs::Algorithm::SHA1,
        Algorithm::SHA256 => totp_rs::Algorithm::SHA256,
        Algorithm::SHA512 => totp_rs::Algorithm::SHA512,
    };
    let totp = totp_rs::TOTP::new(algorithm, digits, skew, step, secret.clone())?;
    Ok(totp.check(token, time))
}

/// `std::time::SystemTime::now` reads the clock; nothing is said of the
/// reading.
pub assume_specification[ std::time::SystemTime::now ]() -> std::time::SystemTime;

/// `std::time::SystemTime::duration_since` measures the time from `earlier`;
/// nothing is said of the measure.
pub assume_specification[ std::time::SystemTime::duration_since ](
    time: &std::time::SystemTime,
    earlier: std::time::SystemTime,
) -> Result<core::time::Duration, std::time::SystemTimeError>;

/// `core::time::Duration::as_secs` gives the whole seconds of a duration;
/// nothing is said of their number.
pub assume_specification[ core::time::Duration::as_secs ](
    duration: &core::time::Duration,
) -> u64;

/// The start of Unix time, `std::time::UNIX_EPOCH`.
#[verifier::external_body]
pub(crate) fn unix_epoch() -> std::time::SystemTime {
    std::time::UNIX_EPOCH
}

/// The clock's reading in whole seconds of Unix time; `None` where the clock
/// stands before the start of Unix time.
pub fn unix_time() -> Option<u64> {
    let now = std::time::SystemTime::now();
    match now.duration_since(unix_epoch()) {
        Ok(elapsed) => Some(elapsed.as_secs()),
        Err(_) => None,
    }
}

} // verus!
