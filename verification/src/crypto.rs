//! The crypto operations offered to sandboxed functions: which primitive an
//! operation runs, on which arguments, and what it answers when an argument
//! is missing or unsupported.

use vstd::prelude::*;
use crate::crypto_primitives::{
    base64_decode_url, base64_url_value, digest_len, digest_value, ecdsa_accepts, hashable,
    hmac_value, pbkdf2_value, primes_balanced, rand_fill, ring_digest, ring_ecdsa_verify,
    ring_hmac_sign, ring_hmac_verify, ring_pbkdf2_derive, rsa_pkcs1v15_accepts, rsa_pkcs1v15_sign,
    rsa_pkcs1v15_signature, rsa_pkcs1v15_verify, rsa_prime_bits, rsa_private_key_prime_bits,
    rsa_pss_accepts, rsa_pss_verify, rsa_public_key_parses, rsa_public_key_valid, CryptoHash,
    CryptoNamedCurve, MAX_HASH_INPUT_BYTES, MAX_PRIME_GAP_BITS,
};

verus! {

/// Most bytes one call may ask of the random number generator.
pub const MAX_RANDOM_BYTES: u32 = 65536;

/// What kind of key a buffer holds.
#[derive(Clone, Copy, Debug, PartialEq, Eq, Structural)]
pub enum KeyType {
    Secret,
    Private,
    Public,
}

/// Algorithms a crypto operation can be asked for. Only some are served.
#[derive(Clone, Copy, Debug, PartialEq, Eq, Structural)]
pub enum Algorithm {
    RsassaPkcs1v15,
    RsaPss,
    RsaOaep,
    Ecdsa,
    Ecdh,
    AesCtr,
    AesCbc,
    AesGcm,
    AesKw,
    Hmac,
    Pbkdf2,
    Hkdf,
}

/// Why a crypto operation gave no result.
#[derive(Clone, Copy, Debug, PartialEq, Eq, Structural)]
pub enum CryptoError {
    /// The operation needs a digest and none was named.
    MissingHash,
    /// RSA-PSS signing needs a salt length and none was given.
    MissingSaltLength,
    /// The algorithm is not one this operation serves.
    UnsupportedAlgorithm,
    /// The key is of a kind the algorithm cannot use.
    InvalidKeyFormat,
    /// A required argument is absent.
    NotSupported,
    /// The algorithm is known but not implemented.
    NotImplemented,
    /// The operation needs secure randomness, which the sandbox does not provide.
    RandomUnavailable,
    /// The key bytes do not decode to a valid key.
    InvalidKey,
    /// The primes of the key differ too much in length for it to sign.
    UnbalancedKey,
    /// The key decoded but could not produce a signature that it accepts.
    SigningFailed,
    /// More random bytes were asked for than one call may have.
    LengthTooLarge,
    /// The text is not valid base64.
    InvalidEncoding,
    /// An input is longer than the primitives can hash.
    InputTooLong,
}

/// A key as the sandbox hands it over.
#[derive(Debug)]
pub struct KeyData {
    pub key_type: KeyType,
    pub data: Vec<u8>,
}

/// Arguments of a signing request.
#[derive(Debug)]
pub struct CryptoSignArgs {
    pub key: Vec<u8>,
    pub algorithm: Algorithm,
    pub hash: Option<CryptoHash>,
    pub data: Vec<u8>,
    pub salt_length: Option<u32>,
    pub named_curve: Option<CryptoNamedCurve>,
}

/// Arguments of a verification request.
#[derive(Debug)]
pub struct CryptoVerifyArgs {
    pub key: KeyData,
    pub algorithm: Algorithm,
    pub hash: Option<CryptoHash>,
    pub signature: Vec<u8>,
    pub named_curve: Option<CryptoNamedCurve>,
    pub data: Vec<u8>,
}

/// Arguments of a key derivation request.
#[derive(Debug)]
pub struct DeriveKeyArg {
    pub key: KeyData,
    pub algorithm: Algorithm,
    pub hash: Option<CryptoHash>,
    /// Number of bits to derive.
    pub length: usize,
    pub iterations: Option<u32>,
}

/// The sixteen bytes of a version 4 UUID made from `bytes`: the version
/// field says 4, everything else is `bytes`.
pub open spec fn uuid_v4(bytes: Seq<u8>) -> Seq<u8> {
    bytes.update(6, (bytes[6] & 0x0f) | 0x40)
}

/// What signing answers.
pub open spec fn sign_answer(
    key: Seq<u8>,
    data: Seq<u8>,
    algorithm: Algorithm,
    hash: Option<CryptoHash>,
    salt_length: Option<u32>,
    named_curve: Option<CryptoNamedCurve>,
) -> Result<Seq<u8>, CryptoError> {
    match algorithm {
        Algorithm::RsassaPkcs1v15 => match (rsa_prime_bits(key), hash) {
            (None, _) => Err(CryptoError::InvalidKey),
            (Some(_), None) => Err(CryptoError::MissingHash),
            (Some((first, second)), Some(digest)) => {
                if !primes_balanced(first, second) {
                    Err(CryptoError::UnbalancedKey)
                } else {
                    match rsa_pkcs1v15_signature(digest, key, data) {
                        Some(signature) => if rsa_pkcs1v15_accepts(
                            digest,
                            true,
                            key,
                            data,
                            signature,
                        ) == Some(true) {
                            Ok(signature)
                        } else {
                            Err(CryptoError::SigningFailed)
                        },
                        None => Err(CryptoError::SigningFailed),
                    }
                }
            },
        },
        Algorithm::RsaPss => {
            if !rsa_private_key_valid(key) {
                Err(CryptoError::InvalidKey)
            } else if salt_length is None {
                Err(CryptoError::MissingSaltLength)
            } else {
                Err(CryptoError::RandomUnavailable)
            }
        },
        Algorithm::Ecdsa => {
            if named_curve is None {
                Err(CryptoError::NotSupported)
            } else {
                Err(CryptoError::RandomUnavailable)
            }
        },
        Algorithm::Hmac => match hash {
            None => Err(CryptoError::NotSupported),
            Some(digest) => {
                if hashable(key.len()) && hashable(data.len()) {
                    Ok(hmac_value(digest, key, data))
                } else {
                    Err(CryptoError::InputTooLong)
                }
            },
        },
        _ => Err(CryptoError::UnsupportedAlgorithm),
    }
}

/// Whether `der` is the PKCS#1 DER encoding of a valid RSA private key.
pub open spec fn rsa_private_key_valid(der: Seq<u8>) -> bool {
    rsa_prime_bits(der) is Some
}

/// Where RSA verification takes its key from: `Ok(true)` for the public half
/// of a private key, `Ok(false)` for a public key as given. A key that does
/// not decode as what it is said to be is invalid.
pub open spec fn rsa_public_key_answer(key_type: KeyType, data: Seq<u8>) -> Result<
    bool,
    CryptoError,
> {
    match key_type {
        KeyType::Private => if rsa_private_key_valid(data) {
            Ok(true)
        } else {
            Err(CryptoError::InvalidKey)
        },
        _ => if rsa_public_key_valid(data) {
            Ok(false)
        } else {
            Err(CryptoError::InvalidKey)
        },
    }
}

/// The answer of an RSA scheme once the key and the digest are known.
pub open spec fn rsa_verdict(accepted: Option<bool>) -> Result<bool, CryptoError> {
    match accepted {
        Some(verdict) => Ok(verdict),
        None => Err(CryptoError::InvalidKey),
    }
}

/// What verification answers.
pub open spec fn verify_answer(
    key_type: KeyType,
    key: Seq<u8>,
    data: Seq<u8>,
    signature: Seq<u8>,
    algorithm: Algorithm,
    named_curve: Option<CryptoNamedCurve>,
    hash: Option<CryptoHash>,
) -> Result<bool, CryptoError> {
    match algorithm {
        Algorithm::RsassaPkcs1v15 => match rsa_public_key_answer(key_type, key) {
            Err(error) => Err(error),
            Ok(private) => match hash {
                None => Err(CryptoError::MissingHash),
                Some(digest) => rsa_verdict(
                    rsa_pkcs1v15_accepts(digest, private, key, data, signature),
                ),
            },
        },
        Algorithm::RsaPss => match rsa_public_key_answer(key_type, key) {
            Err(error) => Err(error),
            Ok(private) => match hash {
                None => Err(CryptoError::MissingHash),
                Some(digest) => rsa_verdict(rsa_pss_accepts(digest, private, key, data, signature)),
            },
        },
        Algorithm::Hmac => match hash {
            None => Err(CryptoError::NotSupported),
            Some(digest) => {
                if hashable(key.len()) && hashable(data.len()) {
                    Ok(hmac_value(digest, key, data) == signature)
                } else {
                    Err(CryptoError::InputTooLong)
                }
            },
        },
        Algorithm::Ecdsa => match named_curve {
            None => Err(CryptoError::NotSupported),
            Some(curve) => match key_type {
                KeyType::Private => Err(CryptoError::RandomUnavailable),
                KeyType::Secret => Err(CryptoError::InvalidKeyFormat),
                KeyType::Public => {
                    if hashable(data.len()) {
                        Ok(ecdsa_accepts(curve, key, data, signature))
                    } else {
                        Err(CryptoError::InputTooLong)
                    }
                },
            },
        },
        _ => Err(CryptoError::UnsupportedAlgorithm),
    }
}

/// Whether a derivation request is one the caller may make: PBKDF2 with a
/// salt derives a positive whole number of bytes, with a positive
/// iteration count once a digest is named.
pub open spec fn derivable(
    algorithm: Algorithm,
    hash: Option<CryptoHash>,
    length: usize,
    iterations: Option<u32>,
    salted: bool,
) -> bool {
    algorithm == Algorithm::Pbkdf2 && salted ==> {
        &&& length > 0
        &&& length % 8 == 0
        &&& hash is Some ==> iterations != Some(0u32)
    }
}

/// What key derivation answers.
pub open spec fn derive_answer(
    secret: Seq<u8>,
    algorithm: Algorithm,
    hash: Option<CryptoHash>,
    length: usize,
    iterations: Option<u32>,
    salt: Option<Seq<u8>>,
) -> Result<Seq<u8>, CryptoError> {
    match algorithm {
        Algorithm::Pbkdf2 => match (salt, hash, iterations) {
            (Some(salt), Some(digest), Some(rounds)) => {
                if hashable(salt.len()) && hashable(secret.len()) && length / 8 <= u32::MAX
                    * digest_len(digest) {
                    Ok(pbkdf2_value(digest, rounds, salt, secret, (length / 8) as nat))
                } else {
                    Err(CryptoError::InputTooLong)
                }
            },
            _ => Err(CryptoError::NotSupported),
        },
        Algorithm::Ecdh | Algorithm::Hkdf => Err(CryptoError::NotImplemented),
        _ => Err(CryptoError::UnsupportedAlgorithm),
    }
}

/// Whether `bytes` is short enough to be hashed.
fn fits_hash(bytes: &[u8]) -> (ok: bool)
    ensures
        ok == hashable(bytes@.len()),
{
    bytes.len() as u64 <= MAX_HASH_INPUT_BYTES
}

/// Length in bytes of the digests of `hash`.
pub fn digest_length(hash: CryptoHash) -> (len: u64)
    ensures
        len == digest_len(hash),
{
    match hash {
        CryptoHash::Sha1 => 20,
        CryptoHash::Sha256 => 32,
        CryptoHash::Sha384 => 48,
        CryptoHash::Sha512 => 64,
    }
}

/// Whether `der` decodes to a valid RSA private key.
fn rsa_private_key_parses(der: &[u8]) -> (ok: bool)
    ensures
        ok == rsa_private_key_valid(der@),
{
    rsa_private_key_prime_bits(der).is_some()
}

/// Says where RSA verification takes its key from: `Ok(true)` for the public
/// half of a private key, `Ok(false)` for a public key as it is. Either must
/// decode.
pub fn read_rsa_public_key(key: &KeyData) -> (source: Result<bool, CryptoError>)
    requires
        key.key_type != KeyType::Secret,
    ensures
        source == rsa_public_key_answer(key.key_type, key.data@),
{
    match key.key_type {
        KeyType::Private => {
            if rsa_private_key_parses(key.data.as_slice()) {
                Ok(true)
            } else {
                Err(CryptoError::InvalidKey)
            }
        },
        _ => {
            if rsa_public_key_parses(key.data.as_slice()) {
                Ok(false)
            } else {
                Err(CryptoError::InvalidKey)
            }
        },
    }
}

/// Whether the second prime is at most [`MAX_PRIME_GAP_BITS`] bits longer
/// than the first.
fn balanced(first: u64, second: u64) -> (ok: bool)
    ensures
        ok == primes_balanced(first, second),
{
    second <= first || second - first <= MAX_PRIME_GAP_BITS
}

/// The sixteen bytes of `bytes` as an array.
fn sixteen(bytes: &Vec<u8>) -> (array: [u8; 16])
    requires
        bytes@.len() == 16,
    ensures
        array@ == bytes@,
{
    let mut array: [u8; 16] = [0;16];
    let mut i: usize = 0;
    while i < 16
        invariant
            i <= 16,
            bytes@.len() == 16,
            forall|k: int| 0 <= k < i ==> array@[k] == bytes@[k],
        decreases 16 - i,
    {
        array[i] = bytes[i];
        i = i + 1;
    }
    assert(array@ =~= bytes@);
    array
}

/// The crypto operations.
pub struct CryptoOps;

impl CryptoOps {
    /// Turns sixteen bytes into a version 4 UUID: the version field is set
    /// to 4 and nothing else is touched.
    pub fn uuid_from_bytes(bytes: [u8; 16]) -> (uuid: [u8; 16])
        ensures
            uuid@ == uuid_v4(bytes@),
    {
        let mut uuid = bytes;
        let sixth: u8 = bytes[6];
        uuid[6] = (sixth & 0x0f) | 0x40;
        assert(uuid@ =~= uuid_v4(bytes@));
        uuid
    }

    /// A version 4 UUID from sixteen bytes of `rng`. Fails only when the
    /// generator does not deliver.
    pub fn random_uuid<R: rand::Rng>(rng: &mut R) -> (uuid: Result<[u8; 16], CryptoError>)
        ensures
            match uuid {
                Ok(bytes) => bytes@[6] & 0xf0 == 0x40,
                Err(error) => error == CryptoError::RandomUnavailable,
            },
    {
        let random = match rand_fill(rng, 16) {
            Some(random) => random,
            None => {
                return Err(CryptoError::RandomUnavailable);
            },
        };
        let bytes = sixteen(&random);
        let sixth: u8 = bytes[6];
        let uuid = CryptoOps::uuid_from_bytes(bytes);
        assert(((sixth & 0x0f) | 0x40) & 0xf0 == 0x40) by (bit_vector);
        Ok(uuid)
    }

    /// `byte_length` bytes of `rng`. At most [`MAX_RANDOM_BYTES`] may be
    /// asked for; within that limit the call fails only when the generator
    /// does not deliver.
    pub fn get_random_values<R: rand::Rng>(rng: &mut R, byte_length: u32) -> (bytes: Result<
        Vec<u8>,
        CryptoError,
    >)
        ensures
            byte_length > MAX_RANDOM_BYTES <==> bytes == Err::<Vec<u8>, CryptoError>(
                CryptoError::LengthTooLarge,
            ),
            match bytes {
                Ok(filled) => filled@.len() == byte_length,
                Err(error) => error == CryptoError::LengthTooLarge || error
                    == CryptoError::RandomUnavailable,
            },
    {
        if byte_length > MAX_RANDOM_BYTES {
            return Err(CryptoError::LengthTooLarge);
        }
        match rand_fill(rng, byte_length as usize) {
            Some(filled) => Ok(filled),
            None => Err(CryptoError::RandomUnavailable),
        }
    }

    /// Signs `data` with `key`.
    ///
    /// RSASSA-PKCS1-v1_5 decodes `key` as a PKCS#1 private key and signs over
    /// the named digest; a key whose second prime is more than
    /// [`MAX_PRIME_GAP_BITS`] bits longer than its first is refused, and a
    /// signature is handed out only once the key accepts it. HMAC computes
    /// the tag of `data`, which is as long as the digest. RSA-PSS and ECDSA
    /// need secure randomness and therefore always fail, after their
    /// arguments were checked. Every other algorithm is unsupported.
    pub fn sign(
        key: &[u8],
        data: &[u8],
        algorithm: Algorithm,
        hash: Option<CryptoHash>,
        salt_length: Option<u32>,
        named_curve: Option<CryptoNamedCurve>,
    ) -> (signature: Result<Vec<u8>, CryptoError>)
        ensures
            match signature {
                Ok(bytes) => sign_answer(key@, data@, algorithm, hash, salt_length, named_curve)
                    == Ok::<Seq<u8>, CryptoError>(bytes@),
                Err(error) => sign_answer(key@, data@, algorithm, hash, salt_length, named_curve)
                    == Err::<Seq<u8>, CryptoError>(error),
            },
            algorithm == Algorithm::Hmac ==> (signature matches Ok(bytes) ==> bytes@.len()
                == digest_len(hash->Some_0)),
    {
        match algorithm {
            Algorithm::RsassaPkcs1v15 => {
                let (first, second) = match rsa_private_key_prime_bits(key) {
                    Some(bits) => bits,
                    None => {
                        return Err(CryptoError::InvalidKey);
                    },
                };
                let digest = match hash {
                    Some(digest) => digest,
                    None => {
                        return Err(CryptoError::MissingHash);
                    },
                };
                if !balanced(first, second) {
                    return Err(CryptoError::UnbalancedKey);
                }
                match rsa_pkcs1v15_sign(digest, key, data) {
                    Some(signature) => {
                        let accepted = rsa_pkcs1v15_verify(
                            digest,
                            true,
                            key,
                            data,
                            signature.as_slice(),
                        );
                        match accepted {
                            Some(true) => Ok(signature),
                            _ => Err(CryptoError::SigningFailed),
                        }
                    },
                    None => Err(CryptoError::SigningFailed),
                }
            },
            Algorithm::RsaPss => {
                if !rsa_private_key_parses(key) {
                    Err(CryptoError::InvalidKey)
                } else if salt_length.is_none() {
                    Err(CryptoError::MissingSaltLength)
                } else {
                    Err(CryptoError::RandomUnavailable)
                }
            },
            Algorithm::Ecdsa => {
                if named_curve.is_none() {
                    Err(CryptoError::NotSupported)
                } else {
                    Err(CryptoError::RandomUnavailable)
                }
            },
            Algorithm::Hmac => match hash {
                None => Err(CryptoError::NotSupported),
                Some(digest) => {
                    if fits_hash(key) && fits_hash(data) {
                        Ok(ring_hmac_sign(digest, key, data))
                    } else {
                        Err(CryptoError::InputTooLong)
                    }
                },
            },
            _ => Err(CryptoError::UnsupportedAlgorithm),
        }
    }

    /// Checks `signature` over `data` with `key`.
    ///
    /// The RSA schemes use the public half of a private key or a public key
    /// as given; a secret key is no input for them. HMAC recomputes the tag
    /// and accepts nothing of another length than the digest's. ECDSA takes
    /// a public key only. Every other algorithm is unsupported.
    pub fn verify(
        key: KeyData,
        data: &[u8],
        signature: &[u8],
        algorithm: Algorithm,
        named_curve: Option<CryptoNamedCurve>,
        hash: Option<CryptoHash>,
    ) -> (accepted: Result<bool, CryptoError>)
        requires
            algorithm == Algorithm::RsassaPkcs1v15 || algorithm == Algorithm::RsaPss
                ==> key.key_type != KeyType::Secret,
        ensures
            accepted == verify_answer(
                key.key_type,
                key.data@,
                data@,
                signature@,
                algorithm,
                named_curve,
                hash,
            ),
            algorithm == Algorithm::Hmac && accepted == Ok::<bool, CryptoError>(true)
                ==> signature@.len() == digest_len(hash->Some_0),
    {
        match algorithm {
            Algorithm::RsassaPkcs1v15 => {
                let private = match read_rsa_public_key(&key) {
                    Ok(private) => private,
                    Err(error) => {
                        return Err(error);
                    },
                };
                match hash {
                    None => Err(CryptoError::MissingHash),
                    Some(digest) => {
                        let verdict = rsa_pkcs1v15_verify(
                            digest,
                            private,
                            key.data.as_slice(),
                            data,
                            signature,
                        );
                        match verdict {
                            Some(accepted) => Ok(accepted),
                            None => Err(CryptoError::InvalidKey),
                        }
                    },
                }
            },
            Algorithm::RsaPss => {
                let private = match read_rsa_public_key(&key) {
                    Ok(private) => private,
                    Err(error) => {
                        return Err(error);
                    },
                };
                match hash {
                    None => Err(CryptoError::MissingHash),
                    Some(digest) => {
                        let verdict = rsa_pss_verify(
                            digest,
                            private,
                            key.data.as_slice(),
                            data,
                            signature,
                        );
                        match verdict {
                            Some(accepted) => Ok(accepted),
                            None => Err(CryptoError::InvalidKey),
                        }
                    },
                }
            },
            Algorithm::Hmac => match hash {
                None => Err(CryptoError::NotSupported),
                Some(digest) => {
                    if fits_hash(key.data.as_slice()) && fits_hash(data) {
                        Ok(ring_hmac_verify(digest, key.data.as_slice(), data, signature))
                    } else {
                        Err(CryptoError::InputTooLong)
                    }
                },
            },
            Algorithm::Ecdsa => match named_curve {
                None => Err(CryptoError::NotSupported),
                Some(curve) => match key.key_type {
                    KeyType::Private => Err(CryptoError::RandomUnavailable),
                    KeyType::Secret => Err(CryptoError::InvalidKeyFormat),
                    KeyType::Public => {
                        if fits_hash(data) {
                            Ok(ring_ecdsa_verify(curve, key.data.as_slice(), data, signature))
                        } else {
                            Err(CryptoError::InputTooLong)
                        }
                    },
                },
            },
            _ => Err(CryptoError::UnsupportedAlgorithm),
        }
    }

    /// Derives `length` bits from the key with PBKDF2.
    ///
    /// The caller has checked that `length` is a positive multiple of eight
    /// and that the iteration count is not zero. A missing salt, digest or
    /// iteration count is answered with `NotSupported`.
    pub fn derive_bits(args: DeriveKeyArg, salt: Option<Vec<u8>>) -> (bits: Result<
        Vec<u8>,
        CryptoError,
    >)
        requires
            derivable(args.algorithm, args.hash, args.length, args.iterations, salt is Some),
        ensures
            match bits {
                Ok(bytes) => derive_answer(
                    args.key.data@,
                    args.algorithm,
                    args.hash,
                    args.length,
                    args.iterations,
                    match salt {
                        Some(s) => Some(s@),
                        None => None,
                    },
                ) == Ok::<Seq<u8>, CryptoError>(bytes@),
                Err(error) => derive_answer(
                    args.key.data@,
                    args.algorithm,
                    args.hash,
                    args.length,
                    args.iterations,
                    match salt {
                        Some(s) => Some(s@),
                        None => None,
                    },
                ) == Err::<Seq<u8>, CryptoError>(error),
            },
            bits matches Ok(bytes) ==> bytes@.len() == args.length / 8,
    {
        match args.algorithm {
            Algorithm::Pbkdf2 => {
                let salt = match salt {
                    Some(salt) => salt,
                    None => {
                        return Err(CryptoError::NotSupported);
                    },
                };
                let digest = match args.hash {
                    Some(digest) => digest,
                    None => {
                        return Err(CryptoError::NotSupported);
                    },
                };
                let rounds = match args.iterations {
                    Some(rounds) => rounds,
                    None => {
                        return Err(CryptoError::NotSupported);
                    },
                };
                let bytes = args.length / 8;
                let most: u64 = 0xffff_ffff * digest_length(digest);
                if fits_hash(salt.as_slice()) && fits_hash(args.key.data.as_slice()) && bytes as u64
                    <= most {
                    Ok(
                        ring_pbkdf2_derive(
                            digest,
                            rounds,
                            salt.as_slice(),
                            args.key.data.as_slice(),
                            bytes,
                        ),
                    )
                } else {
                    Err(CryptoError::InputTooLong)
                }
            },
            Algorithm::Ecdh | Algorithm::Hkdf => Err(CryptoError::NotImplemented),
            _ => Err(CryptoError::UnsupportedAlgorithm),
        }
    }

    /// The digest of `data` under `algorithm`.
    pub fn subtle_digest(algorithm: CryptoHash, data: Vec<u8>) -> (digest: Result<
        Vec<u8>,
        CryptoError,
    >)
        ensures
            match digest {
                Ok(bytes) => hashable(data@.len()) && bytes@ == digest_value(algorithm, data@)
                    && bytes@.len() == digest_len(algorithm),
                Err(error) => !hashable(data@.len()) && error == CryptoError::InputTooLong,
            },
    {
        if fits_hash(data.as_slice()) {
            Ok(ring_digest(algorithm, data.as_slice()))
        } else {
            Err(CryptoError::InputTooLong)
        }
    }

    /// Decodes URL-safe base64 without padding.
    pub fn base64_url_decode(data: &str) -> (bytes: Result<Vec<u8>, CryptoError>)
        ensures
            match bytes {
                Ok(decoded) => base64_url_value(data@) == Some(decoded@),
                Err(error) => base64_url_value(data@) is None && error
                    == CryptoError::InvalidEncoding,
            },
    {
        match base64_decode_url(data) {
            Some(decoded) => Ok(decoded),
            None => Err(CryptoError::InvalidEncoding),
        }
    }
}

/// What is signed verifies. A signature that [`CryptoOps::sign`] hands out
/// for HMAC or RSASSA-PKCS1-v1_5 is accepted by [`CryptoOps::verify`] under
/// the same key, data and digest: a secret key for HMAC, the private key for
/// RSA. For HMAC nothing else is accepted: data with another tag is refused.
pub proof fn law_signatures_verify(
    key: Seq<u8>,
    data: Seq<u8>,
    other: Seq<u8>,
    algorithm: Algorithm,
    digest: CryptoHash,
    signature: Seq<u8>,
)
    requires
        algorithm == Algorithm::Hmac || algorithm == Algorithm::RsassaPkcs1v15,
        sign_answer(key, data, algorithm, Some(digest), None, None) == Ok::<
            Seq<u8>,
            CryptoError,
        >(signature),
    ensures
        verify_answer(
            if algorithm == Algorithm::Hmac {
                KeyType::Secret
            } else {
                KeyType::Private
            },
            key,
            data,
            signature,
            algorithm,
            None,
            Some(digest),
        ) == Ok::<bool, CryptoError>(true),
        algorithm == Algorithm::Hmac && hashable(other.len()) && hmac_value(digest, key, other)
            != signature ==> verify_answer(
            KeyType::Secret,
            key,
            other,
            signature,
            algorithm,
            None,
            Some(digest),
        ) == Ok::<bool, CryptoError>(false),
{
}

} // verus!
