//! The cryptographic primitives the library relies on, all provided by the
//! `openssl` and `rand` crates and reached through the trusted wrappers below.
//!
//! Results that depend on their arguments alone are given names (uninterpreted
//! spec functions); results that depend on chance are only bounded in length.

use vstd::prelude::*;

verus! {

/// The error type of the `openssl` crate, carried through unchanged.
#[verifier::external_type_specification]
#[verifier::external_body]
pub struct ExErrorStack(openssl::error::ErrorStack);

/// The largest length `openssl` accepts for a buffer handed to the C library.
pub open spec fn c_int_max() -> int {
    0x7fff_ffff
}

/// Ciphertext and tag that AES-256-GCM gives for `key`, `iv`, `aad` and `plaintext`.
pub uninterp spec fn aes_256_gcm_seal(
    key: Seq<u8>,
    iv: Seq<u8>,
    aad: Seq<u8>,
    plaintext: Seq<u8>,
) -> (Seq<u8>, Seq<u8>);

/// What AES-256-GCM decryption gives for `key`, `iv`, `aad`, `ciphertext` and `tag`: the
/// plaintext when the tag authenticates the ciphertext under the key, IV and additional
/// data, and nothing otherwise (a wrong tag, or a key or IV the cipher does not take).
pub uninterp spec fn aes_256_gcm_open(
    key: Seq<u8>,
    iv: Seq<u8>,
    aad: Seq<u8>,
    ciphertext: Seq<u8>,
    tag: Seq<u8>,
) -> Option<Seq<u8>>;

/// Key that PBKDF2-HMAC-SHA512 derives from `password` and `salt` in `iterations` rounds.
pub uninterp spec fn pbkdf2_hmac_sha512(
    password: Seq<u8>,
    salt: Seq<u8>,
    iterations: nat,
    key_len: nat,
) -> Seq<u8>;

/// Ciphertext that AES-128-CBC with PKCS#7 padding gives for `key`, `iv` and `plaintext`.
pub uninterp spec fn aes_128_cbc_encrypt(key: Seq<u8>, iv: Seq<u8>, plaintext: Seq<u8>) -> Seq<u8>;

/// What AES-128-CBC decryption with PKCS#7 padding gives for `key`, `iv` and `ciphertext`:
/// the plaintext, or nothing when the padding is wrong or the key does not suit the cipher.
pub uninterp spec fn aes_128_cbc_decrypt(key: Seq<u8>, iv: Seq<u8>, ciphertext: Seq<u8>) -> Option<Seq<u8>>;

/// Output of HKDF-SHA256 (extract then expand, no info) for `salt` and input key material `ikm`,
/// `len` bytes long.
pub uninterp spec fn hkdf_sha256(salt: Seq<u8>, ikm: Seq<u8>, len: nat) -> Seq<u8>;

/// The SHA-256 digest of `data`.
pub uninterp spec fn sha256_of(data: Seq<u8>) -> Seq<u8>;

/// Hashes `data` with SHA-256.
///
/// Trusted: calls `openssl::sha::sha256`, whose 32-byte result depends on the data alone
/// and is named `sha256_of`.
#[verifier::external_body]
pub(crate) fn sha256_digest(data: &[u8]) -> (r: [u8; 32])
    ensures
        r@ == sha256_of(data@),
{
    openssl::sha::sha256(data)
}

/// Fills a new buffer of `len` bytes with cryptographically strong random bytes.
///
/// Trusted: calls `openssl::rand::rand_bytes` on a zeroed buffer of `len` bytes.
/// Claims only that the buffer keeps its length; the bytes are chance.
/// `rand_bytes` asserts that the length fits a C `int`, hence the `requires`.
#[verifier::external_body]
pub(crate) fn random_bytes(len: usize) -> (r: Result<Vec<u8>, openssl::error::ErrorStack>)
    requires
        len <= c_int_max(),
    ensures
        r matches Ok(v) ==> v@.len() == len,
{
    let mut buf = vec![0u8; len];
    openssl::rand::rand_bytes(&mut buf).map(|_| buf)
}

/// Sixteen random bytes.
///
/// Trusted: calls `rand::random::<[u8; 16]>()` and copies the array into a `Vec`.
/// Claims only the length.
#[verifier::external_body]
pub(crate) fn random_block() -> (r: Vec<u8>)
    ensures
        r@.len() == 16,
{
    rand::random::<[u8; 16]>().to_vec()
}

/// Encrypts `plaintext` with AES-256-GCM, returning ciphertext and a 16-byte tag.
///
/// Trusted: calls `openssl::symm::encrypt_aead` with `Cipher::aes_256_gcm()` and a
/// 16-byte tag buffer. Claims that a successful result is the (named) AES-256-GCM
/// output for these arguments, that the tag is the 16-byte buffer, and that decryption
/// with the same key, IV and additional data opens it to the plaintext (GCM is a
/// deterministic authenticated cipher), and that the ciphertext is as long as the
/// plaintext (GCM is a stream mode: `encrypt_aead` truncates its output to the bytes that
/// `update` and `finalize` wrote). The buffer lengths are converted to C `int`s with
/// `unwrap`, hence the `requires`.
#[verifier::external_body]
pub(crate) fn aes_256_gcm_encrypt(key: &[u8], iv: &[u8], aad: &[u8], plaintext: &[u8]) -> (r: Result<
    (Vec<u8>, Vec<u8>),
    openssl::error::ErrorStack,
>)
    requires
        key@.len() <= c_int_max(),
        iv@.len() <= c_int_max(),
        aad@.len() <= c_int_max(),
        plaintext@.len() <= c_int_max(),
    ensures
        r matches Ok((c, t)) ==> (c@, t@) == aes_256_gcm_seal(key@, iv@, aad@, plaintext@)
            && t@.len() == 16 && c@.len() == plaintext@.len() && aes_256_gcm_open(key@, iv@, aad@, c@, t@)
            == Some(plaintext@),
{
    let mut tag = vec![0u8; 16];
    openssl::symm::encrypt_aead(
        openssl::symm::Cipher::aes_256_gcm(),
        key,
        Some(iv),
        aad,
        plaintext,
        &mut tag,
    ).map(|c| (c, tag))
}

/// Decrypts and authenticates `ciphertext` with AES-256-GCM.
///
/// Trusted: calls `openssl::symm::decrypt_aead` with `Cipher::aes_256_gcm()`. Its outcome
/// depends on the arguments alone and is named `aes_256_gcm_open`: the plaintext when the
/// call succeeds, nothing when it fails. An allocation failure inside OpenSSL is not
/// accounted for.
#[verifier::external_body]
pub(crate) fn aes_256_gcm_decrypt(
    key: &[u8],
    iv: &[u8],
    aad: &[u8],
    ciphertext: &[u8],
    tag: &[u8],
) -> (r: Result<Vec<u8>, openssl::error::ErrorStack>)
    requires
        key@.len() <= c_int_max(),
        iv@.len() <= c_int_max(),
        aad@.len() <= c_int_max(),
        ciphertext@.len() <= c_int_max(),
        tag@.len() <= c_int_max(),
    ensures
        match aes_256_gcm_open(key@, iv@, aad@, ciphertext@, tag@) {
            Some(p) => r matches Ok(v) && v@ == p,
            None => r is Err,
        },
{
    openssl::symm::decrypt_aead(
        openssl::symm::Cipher::aes_256_gcm(),
        key,
        Some(iv),
        aad,
        ciphertext,
        tag,
    )
}

/// Derives a `key_len`-byte key from `password` and `salt` with PBKDF2-HMAC-SHA512.
///
/// Trusted: calls `openssl::pkcs5::pbkdf2_hmac` with `MessageDigest::sha512()` on a zeroed
/// buffer of `key_len` bytes. Claims that a successful result is the (named) PBKDF2 output
/// and has the buffer's length. The lengths and the count are converted to C `int`s with
/// `unwrap`, hence the `requires`.
#[verifier::external_body]
pub(crate) fn pbkdf2_sha512(password: &[u8], salt: &[u8], iterations: usize, key_len: usize) -> (r:
    Result<Vec<u8>, openssl::error::ErrorStack>)
    requires
        password@.len() <= c_int_max(),
        salt@.len() <= c_int_max(),
        iterations <= c_int_max(),
        key_len <= c_int_max(),
    ensures
        r matches Ok(k) ==> k@ == pbkdf2_hmac_sha512(password@, salt@, iterations as nat, key_len as nat)
            && k@.len() == key_len,
{
    let mut key = vec![0u8; key_len];
    openssl::pkcs5::pbkdf2_hmac(
        password,
        salt,
        iterations,
        openssl::hash::MessageDigest::sha512(),
        &mut key,
    ).map(|_| key)
}

/// Encrypts `plaintext` with AES-128-CBC and PKCS#7 padding.
///
/// Trusted: calls `openssl::symm::encrypt` with `Cipher::aes_128_cbc()`. Claims that a
/// successful result is the (named) AES-128-CBC ciphertext, that decrypting it with the
/// same key and IV gives the plaintext back, and that its length is the plaintext's
/// rounded up past the next multiple of the 16-byte block (PKCS#7 always pads). `Crypter::new` would change the IV length
/// for an IV other than the cipher's 16 bytes, which the cipher refuses or which trips an
/// assertion, hence the `requires` on the IV.
#[verifier::external_body]
pub(crate) fn aes_128_cbc_encrypt_bytes(key: &[u8], iv: &[u8], plaintext: &[u8]) -> (r: Result<
    Vec<u8>,
    openssl::error::ErrorStack,
>)
    requires
        key@.len() <= c_int_max(),
        iv@.len() == 16,
        plaintext@.len() <= c_int_max(),
    ensures
        r matches Ok(c) ==> c@ == aes_128_cbc_encrypt(key@, iv@, plaintext@)
            && aes_128_cbc_decrypt(key@, iv@, c@) == Some(plaintext@)
            && c@.len() == (plaintext@.len() / 16 + 1) * 16,
{
    openssl::symm::encrypt(openssl::symm::Cipher::aes_128_cbc(), key, Some(iv), plaintext)
}

/// Decrypts `ciphertext` with AES-128-CBC and PKCS#7 padding.
///
/// Trusted: calls `openssl::symm::decrypt` with `Cipher::aes_128_cbc()`. Its outcome
/// depends on the arguments alone and is named `aes_128_cbc_decrypt`: the plaintext when
/// the call succeeds, nothing when it fails. An allocation failure inside OpenSSL is not
/// accounted for. The IV must have the cipher's 16 bytes (see the encryption wrapper).
#[verifier::external_body]
pub(crate) fn aes_128_cbc_decrypt_bytes(key: &[u8], iv: &[u8], ciphertext: &[u8]) -> (r: Result<
    Vec<u8>,
    openssl::error::ErrorStack,
>)
    requires
        key@.len() <= c_int_max(),
        iv@.len() == 16,
        ciphertext@.len() <= c_int_max(),
    ensures
        match aes_128_cbc_decrypt(key@, iv@, ciphertext@) {
            Some(p) => r matches Ok(v) && v@ == p,
            None => r is Err,
        },
{
    openssl::symm::decrypt(openssl::symm::Cipher::aes_128_cbc(), key, Some(iv), ciphertext)
}

/// One side of a Diffie-Hellman exchange in the 1024-bit MODP group of RFC 2409
/// (generator 2): returns our fresh public key and the shared secret computed with the
/// peer's public key, both big-endian.
///
/// Trusted: calls `BigNum::get_rfc2409_prime_1024`, `BigNum::from_u32(2)`,
/// `Dh::from_pqg`, `Dh::generate_key`, `Dh::public_key` (copied out with `to_vec`),
/// `BigNum::from_slice` on the peer key and `Dh::compute_key`, in the order in which the
/// exchange needs them. The private key is chance, so the keys are not named; the only
/// claims are that the shared secret has the length `compute_key` allocates for it,
/// `DH_size` of the group, which is 128 bytes for this 1024-bit prime, and that the public
/// key, a number below that prime written without leading zeros, has at most 128 bytes.
/// `BigNum::from_slice` asserts that the peer key length fits a C `int`.
#[verifier::external_body]
pub(crate) fn dh_ietf1024_agree(peer_public: &[u8]) -> (r: Result<
    (Vec<u8>, Vec<u8>),
    openssl::error::ErrorStack,
>)
    requires
        peer_public@.len() <= c_int_max(),
    ensures
        r matches Ok((public, shared)) ==> public@.len() <= 128 && shared@.len() == 128,
{
    let p = openssl::bn::BigNum::get_rfc2409_prime_1024()?;
    let g = openssl::bn::BigNum::from_u32(2u32)?;
    let private = openssl::dh::Dh::from_pqg(p, None, g)?.generate_key()?;
    let public = private.public_key().to_vec();
    let peer = openssl::bn::BigNum::from_slice(peer_public)?;
    private.compute_key(&peer).map(|shared| (public, shared))
}

/// HKDF-SHA256 in extract-then-expand mode: derives `len` bytes from `ikm` and `salt`.
///
/// Trusted: calls `PkeyCtx::new_id(Id::HKDF)`, `derive_init`, `set_hkdf_mode`
/// (`EXTRACT_THEN_EXPAND`), `set_hkdf_salt`, `set_hkdf_md(Md::sha256())`, `set_hkdf_key`
/// and `derive` into a zeroed buffer of `len` bytes. Claims that a successful result is the
/// (named) HKDF output and has the buffer's length. Salt and key lengths are converted to
/// C `int`s with `unwrap`.
#[verifier::external_body]
pub(crate) fn hkdf_sha256_derive(salt: &[u8], ikm: &[u8], len: usize) -> (r: Result<
    Vec<u8>,
    openssl::error::ErrorStack,
>)
    requires
        salt@.len() <= c_int_max(),
        ikm@.len() <= c_int_max(),
    ensures
        r matches Ok(k) ==> k@ == hkdf_sha256(salt@, ikm@, len as nat) && k@.len() == len,
{
    let mut ctx = openssl::pkey_ctx::PkeyCtx::new_id(openssl::pkey::Id::HKDF)?;
    ctx.derive_init()?;
    ctx.set_hkdf_mode(openssl::pkey_ctx::HkdfMode::EXTRACT_THEN_EXPAND)?;
    ctx.set_hkdf_salt(salt)?;
    ctx.set_hkdf_md(openssl::md::Md::sha256())?;
    ctx.set_hkdf_key(ikm)?;
    let mut out = vec![0u8; len];
    ctx.derive(Some(out.as_mut_slice())).map(|_| out)
}

} // verus!
