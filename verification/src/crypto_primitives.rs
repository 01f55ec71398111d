//! The cryptographic primitives the crypto operations rest on.
//!
//! Nothing in this file is proved. Each function calls one primitive of an
//! outside crate and its contract is taken on trust from that crate's source.
//! Where a primitive computes a value from its arguments alone, the value has
//! a name here and the contract says no more than that the call returns it.

use vstd::prelude::*;
use rsa::pkcs1::{DecodeRsaPrivateKey, DecodeRsaPublicKey};
use rsa::pkcs1v15::VerifyingKey as Pkcs1v15Key;
use rsa::pss::VerifyingKey as PssKey;
use rsa::signature::{SignatureEncoding, Signer, Verifier};
use rsa::traits::PrivateKeyParts;
use rsa::{RsaPrivateKey, RsaPublicKey};
use sha1::Sha1;
use sha2::{Sha256, Sha384, Sha512};

verus! {

/// Digest algorithms of the crypto operations.
#[derive(Clone, Copy, Debug, PartialEq, Eq, Structural)]
pub enum CryptoHash {
    Sha1,
    Sha256,
    Sha384,
    Sha512,
}

/// Elliptic curves of the crypto operations.
#[derive(Clone, Copy, Debug, PartialEq, Eq, Structural)]
pub enum CryptoNamedCurve {
    P256,
    P384,
}

/// Longest input, in bytes, that is handed to a hash-based primitive. The
/// primitives count their input in bits in 64 bits and give up beyond that;
/// this bound leaves room for the padding and key blocks they add.
pub const MAX_HASH_INPUT_BYTES: u64 = 0x1000_0000_0000_0000;

/// Whether an input of `len` bytes may be handed to a hash-based primitive.
pub open spec fn hashable(len: nat) -> bool {
    len <= MAX_HASH_INPUT_BYTES
}

/// Length in bytes of the digests of `hash`.
pub open spec fn digest_len(hash: CryptoHash) -> nat {
    match hash {
        CryptoHash::Sha1 => 20,
        CryptoHash::Sha256 => 32,
        CryptoHash::Sha384 => 48,
        CryptoHash::Sha512 => 64,
    }
}

/// The digest of `data` under `hash`.
pub uninterp spec fn digest_value(hash: CryptoHash, data: Seq<u8>) -> Seq<u8>;

/// The HMAC tag of `data` under `key` with `hash` as the digest.
pub uninterp spec fn hmac_value(hash: CryptoHash, key: Seq<u8>, data: Seq<u8>) -> Seq<u8>;

/// The lengths in bits of the first and the second prime of the RSA private
/// key that `der` encodes in PKCS#1 DER, if it encodes a valid one.
pub uninterp spec fn rsa_prime_bits(der: Seq<u8>) -> Option<(u64, u64)>;

/// Whether `der` is the PKCS#1 DER encoding of a valid RSA public key.
pub uninterp spec fn rsa_public_key_valid(der: Seq<u8>) -> bool;

/// The RSASSA-PKCS1-v1_5 signature of `data` under the private key `der`, if
/// the key can sign it.
pub uninterp spec fn rsa_pkcs1v15_signature(hash: CryptoHash, der: Seq<u8>, data: Seq<u8>)
    -> Option<Seq<u8>>;

/// Whether `signature` is an RSASSA-PKCS1-v1_5 signature of `data` under the
/// key `der`: a private key whose public half is used if `private`, a public
/// key otherwise. Nothing where the key does not decode.
pub uninterp spec fn rsa_pkcs1v15_accepts(
    hash: CryptoHash,
    private: bool,
    der: Seq<u8>,
    data: Seq<u8>,
    signature: Seq<u8>,
) -> Option<bool>;

/// Whether `signature` is an RSASSA-PSS signature of `data`, with a salt as
/// long as the digest, under the key `der`: a private key whose public half
/// is used if `private`, a public key otherwise. Nothing where the key does
/// not decode.
pub uninterp spec fn rsa_pss_accepts(
    hash: CryptoHash,
    private: bool,
    der: Seq<u8>,
    data: Seq<u8>,
    signature: Seq<u8>,
) -> Option<bool>;

/// Whether `signature` is a fixed-length ECDSA signature of `data` under the
/// uncompressed public point `public_key` on `curve`, with the digest that
/// goes with the curve.
pub uninterp spec fn ecdsa_accepts(
    curve: CryptoNamedCurve,
    public_key: Seq<u8>,
    data: Seq<u8>,
    signature: Seq<u8>,
) -> bool;

/// The first `length` bytes of the PBKDF2 key stream for `secret` and `salt`.
pub uninterp spec fn pbkdf2_value(
    hash: CryptoHash,
    iterations: u32,
    salt: Seq<u8>,
    secret: Seq<u8>,
    length: nat,
) -> Seq<u8>;

/// The bytes that `text` stands for in URL-safe base64 without padding, if
/// it is such a text.
pub uninterp spec fn base64_url_value(text: Seq<char>) -> Option<Seq<u8>>;

/// `ring::digest::digest` with the algorithm that `hash` names. The call
/// returns the digest of `data`; it is a function of the algorithm and the
/// data alone, and as long as the algorithm's output. Inputs too long for the
/// bit counter are kept out.
#[verifier::external_body]
pub(crate) fn ring_digest(hash: CryptoHash, data: &[u8]) -> (digest: Vec<u8>)
    requires
        hashable(data@.len()),
    ensures
        digest@ == digest_value(hash, data@),
        digest@.len() == digest_len(hash),
{
    let algorithm = match hash {
        CryptoHash::Sha1 => &ring::digest::SHA1_FOR_LEGACY_USE_ONLY,
        CryptoHash::Sha256 => &ring::digest::SHA256,
        CryptoHash::Sha384 => &ring::digest::SHA384,
        CryptoHash::Sha512 => &ring::digest::SHA512,
    };
    ring::digest::digest(algorithm, data).as_ref().to_vec()
}

/// `ring::hmac::sign` with a key made by `ring::hmac::Key::new`. The call
/// returns the tag of `data`; it is a function of the algorithm, the key
/// bytes and the data alone, and as long as the digest.
#[verifier::external_body]
pub(crate) fn ring_hmac_sign(hash: CryptoHash, key: &[u8], data: &[u8]) -> (tag: Vec<u8>)
    requires
        hashable(key@.len()),
        hashable(data@.len()),
    ensures
        tag@ == hmac_value(hash, key@, data@),
        tag@.len() == digest_len(hash),
{
    let algorithm = match hash {
        CryptoHash::Sha1 => ring::hmac::HMAC_SHA1_FOR_LEGACY_USE_ONLY,
        CryptoHash::Sha256 => ring::hmac::HMAC_SHA256,
        CryptoHash::Sha384 => ring::hmac::HMAC_SHA384,
        CryptoHash::Sha512 => ring::hmac::HMAC_SHA512,
    };
    ring::hmac::sign(&ring::hmac::Key::new(algorithm, key), data).as_ref().to_vec()
}

/// `ring::hmac::verify` with a key made by `ring::hmac::Key::new`. The call
/// computes the tag of `data` and compares it with `signature` in constant
/// time: it succeeds exactly when the two are equal, so only a signature as
/// long as the digest can succeed.
#[verifier::external_body]
pub(crate) fn ring_hmac_verify(hash: CryptoHash, key: &[u8], data: &[u8], signature: &[u8]) -> (ok:
    bool)
    requires
        hashable(key@.len()),
        hashable(data@.len()),
    ensures
        ok == (hmac_value(hash, key@, data@) == signature@),
        ok ==> signature@.len() == digest_len(hash),
{
    let algorithm = match hash {
        CryptoHash::Sha1 => ring::hmac::HMAC_SHA1_FOR_LEGACY_USE_ONLY,
        CryptoHash::Sha256 => ring::hmac::HMAC_SHA256,
        CryptoHash::Sha384 => ring::hmac::HMAC_SHA384,
        CryptoHash::Sha512 => ring::hmac::HMAC_SHA512,
    };
    ring::hmac::verify(&ring::hmac::Key::new(algorithm, key), data, signature).is_ok()
}

/// Largest number of bits by which the second prime of a key may be longer
/// than the first if the key is to sign. The signer corrects a difference
/// by adding the first prime once for every time it goes into the second.
pub const MAX_PRIME_GAP_BITS: u64 = 16;

/// Whether primes of these lengths are close enough for the key to sign.
pub open spec fn primes_balanced(first: u64, second: u64) -> bool {
    second <= first + MAX_PRIME_GAP_BITS
}

/// `rsa::RsaPrivateKey::from_pkcs1_der` and `primes` of the decoded key: the
/// lengths in bits of its two primes, or nothing when the bytes do not decode
/// to a valid private key. A decoded key has exactly two primes.
#[verifier::external_body]
pub(crate) fn rsa_private_key_prime_bits(der: &[u8]) -> (bits: Option<(u64, u64)>)
    ensures
        bits == rsa_prime_bits(der@),
{
    let key = RsaPrivateKey::from_pkcs1_der(der).ok()?;
    Some((key.primes().first()?.bits() as u64, key.primes().get(1)?.bits() as u64))
}

/// `rsa::RsaPublicKey::from_pkcs1_der`: whether the bytes decode to a valid
/// public key.
#[verifier::external_body]
pub(crate) fn rsa_public_key_parses(der: &[u8]) -> (ok: bool)
    ensures
        ok == rsa_public_key_valid(der@),
{
    RsaPublicKey::from_pkcs1_der(der).is_ok()
}

/// `try_sign` of `rsa::pkcs1v15::SigningKey` over the digest that `hash`
/// names. Signing uses no randomness, so the signature is a function of the
/// key, the digest and the data; it is absent when the key does not decode
/// or cannot sign. Keys whose second prime is much longer than the first
/// keep the signer busy beyond measure and are kept out.
#[verifier::external_body]
pub(crate) fn rsa_pkcs1v15_sign(hash: CryptoHash, der: &[u8], data: &[u8]) -> (signature: Option<
    Vec<u8>,
>)
    requires
        rsa_prime_bits(der@) matches Some((first, second)) ==> primes_balanced(first, second),
    ensures
        match signature {
            Some(bytes) => rsa_pkcs1v15_signature(hash, der@, data@) == Some(bytes@),
            None => rsa_pkcs1v15_signature(hash, der@, data@) is None,
        },
{
    let key = RsaPrivateKey::from_pkcs1_der(der).ok()?;
    let signature = match hash {
        CryptoHash::Sha1 => rsa::pkcs1v15::SigningKey::<Sha1>::new(key).try_sign(data),
        CryptoHash::Sha256 => rsa::pkcs1v15::SigningKey::<Sha256>::new(key).try_sign(data),
        CryptoHash::Sha384 => rsa::pkcs1v15::SigningKey::<Sha384>::new(key).try_sign(data),
        CryptoHash::Sha512 => rsa::pkcs1v15::SigningKey::<Sha512>::new(key).try_sign(data),
    };
    Some(signature.ok()?.to_vec())
}

/// `verify` of `rsa::pkcs1v15::VerifyingKey` over the digest that `hash`
/// names. The key is taken from the bytes as they are: `to_public_key` of
/// the decoded private key if `private`, the decoded public key otherwise.
/// The answer is whether the signature is accepted, or nothing when the key
/// does not decode.
#[verifier::external_body]
pub(crate) fn rsa_pkcs1v15_verify(
    hash: CryptoHash,
    private: bool,
    der: &[u8],
    data: &[u8],
    signature: &[u8],
) -> (ok: Option<bool>)
    ensures
        ok == rsa_pkcs1v15_accepts(hash, private, der@, data@, signature@),
{
    let key = match private {
        true => RsaPrivateKey::from_pkcs1_der(der).ok()?.to_public_key(),
        false => RsaPublicKey::from_pkcs1_der(der).ok()?,
    };
    let sig = rsa::pkcs1v15::Signature::try_from(signature).ok()?;
    Some(match hash {
        CryptoHash::Sha1 => Pkcs1v15Key::<Sha1>::new(key).verify(data, &sig),
        CryptoHash::Sha256 => Pkcs1v15Key::<Sha256>::new(key).verify(data, &sig),
        CryptoHash::Sha384 => Pkcs1v15Key::<Sha384>::new(key).verify(data, &sig),
        CryptoHash::Sha512 => Pkcs1v15Key::<Sha512>::new(key).verify(data, &sig),
    }.is_ok())
}

/// `verify` of `rsa::pss::VerifyingKey` over the digest that `hash` names,
/// with the salt length it has by default. The key is taken from the bytes
/// as they are: `to_public_key` of the decoded private key if `private`, the
/// decoded public key otherwise. The answer is whether the signature is
/// accepted, or nothing when the key does not decode.
#[verifier::external_body]
pub(crate) fn rsa_pss_verify(
    hash: CryptoHash,
    private: bool,
    der: &[u8],
    data: &[u8],
    signature: &[u8],
) -> (ok: Option<bool>)
    ensures
        ok == rsa_pss_accepts(hash, private, der@, data@, signature@),
{
    let key = match private {
        true => RsaPrivateKey::from_pkcs1_der(der).ok()?.to_public_key(),
        false => RsaPublicKey::from_pkcs1_der(der).ok()?,
    };
    let sig = rsa::pss::Signature::try_from(signature).ok()?;
    Some(match hash {
        CryptoHash::Sha1 => PssKey::<Sha1>::from(key).verify(data, &sig),
        CryptoHash::Sha256 => PssKey::<Sha256>::from(key).verify(data, &sig),
        CryptoHash::Sha384 => PssKey::<Sha384>::from(key).verify(data, &sig),
        CryptoHash::Sha512 => PssKey::<Sha512>::from(key).verify(data, &sig),
    }.is_ok())
}

/// `verify` of `ring::signature::UnparsedPublicKey` with the fixed-length
/// ECDSA algorithm of `curve`: whether the signature is accepted.
#[verifier::external_body]
pub(crate) fn ring_ecdsa_verify(
    curve: CryptoNamedCurve,
    public_key: &[u8],
    data: &[u8],
    signature: &[u8],
) -> (ok: bool)
    requires
        hashable(data@.len()),
    ensures
        ok == ecdsa_accepts(curve, public_key@, data@, signature@),
{
    let algorithm = match curve {
        CryptoNamedCurve::P256 => &ring::signature::ECDSA_P256_SHA256_FIXED,
        CryptoNamedCurve::P384 => &ring::signature::ECDSA_P384_SHA384_FIXED,
    };
    ring::signature::UnparsedPublicKey::new(algorithm, public_key).verify(data, signature).is_ok()
}

/// `ring::pbkdf2::derive` into a buffer of `length` bytes. The call fills
/// the whole buffer with a function of its other arguments. It gives up on
/// more output than `u32::MAX` digests and on inputs too long to hash, which
/// are kept out, as is a zero iteration count.
#[verifier::external_body]
pub(crate) fn ring_pbkdf2_derive(
    hash: CryptoHash,
    iterations: u32,
    salt: &[u8],
    secret: &[u8],
    length: usize,
) -> (out: Vec<u8>)
    requires
        iterations > 0,
        hashable(salt@.len()),
        hashable(secret@.len()),
        length <= u32::MAX * digest_len(hash),
    ensures
        out@.len() == length,
        out@ == pbkdf2_value(hash, iterations, salt@, secret@, length as nat),
{
    let algorithm = match hash {
        CryptoHash::Sha1 => ring::pbkdf2::PBKDF2_HMAC_SHA1,
        CryptoHash::Sha256 => ring::pbkdf2::PBKDF2_HMAC_SHA256,
        CryptoHash::Sha384 => ring::pbkdf2::PBKDF2_HMAC_SHA384,
        CryptoHash::Sha512 => ring::pbkdf2::PBKDF2_HMAC_SHA512,
    };
    let mut out = vec![0; length];
    let rounds = std::num::NonZeroU32::new(iterations).unwrap();
    ring::pbkdf2::derive(algorithm, rounds, salt, secret, &mut out);
    out
}

/// `rand::Rng::try_fill` on a fresh buffer of `length` bytes. What the bytes
/// are depends on the generator, and so does whether it delivers at all;
/// only their number is known.
#[verifier::external_body]
pub(crate) fn rand_fill<R: rand::Rng>(rng: &mut R, length: usize) -> (bytes: Option<Vec<u8>>)
    ensures
        bytes matches Some(filled) ==> filled@.len() == length,
{
    let mut bytes = vec![0u8; length];
    rng.try_fill(&mut bytes[..]).ok()?;
    Some(bytes)
}

/// `base64::decode_config` with `base64::URL_SAFE_NO_PAD`: the decoded
/// bytes, a function of the text alone, or nothing when the text is not
/// valid in that alphabet.
#[verifier::external_body]
pub(crate) fn base64_decode_url(text: &str) -> (bytes: Option<Vec<u8>>)
    ensures
        match bytes {
            Some(decoded) => base64_url_value(text@) == Some(decoded@),
            None => base64_url_value(text@) is None,
        },
{
    base64::decode_config(text, base64::URL_SAFE_NO_PAD).ok()
}

} // verus!
