//! Passphrase protection of refresh tokens: a key derived from the
//! passphrase with Argon2id seals the token with ChaCha20-Poly1305; the
//! ciphertext, nonce and salt are stored in standard Base64.

use vstd::prelude::*;
use vstd::string::{StringExecFns, StringSliceAdditionalSpecFns};
use vstd::utf8::{decode_utf8, valid_utf8};

use base64::Engine;
use chacha20poly1305::aead::{Aead, KeyInit};
use rand::TryRng;

use super::error::AuthError;

verus! {

/// Argon2id parameters.
#[derive(Debug, Clone, Copy, PartialEq, Eq, Structural)]
pub struct KdfParams {
    pub memory_kib: u32,
    pub iterations: u32,
    pub parallelism: u32,
}

/// A sealed secret: ciphertext, nonce and salt in standard Base64, and the
/// key-derivation parameters.
#[derive(Debug, Clone)]
pub struct EncryptedBlob {
    pub ciphertext: String,
    pub nonce: String,
    pub salt: String,
    pub kdf: KdfParams,
}

/// The parameters new secrets are sealed with: 19 MiB of memory, two
/// passes, one lane.
pub open spec fn default_kdf_params() -> KdfParams {
    KdfParams { memory_kib: 19456, iterations: 2, parallelism: 1 }
}

/// Whether Argon2 accepts the parameters: at least 8 KiB of memory and 8 KiB
/// per lane, 1 to 2^24 - 1 lanes, at least one pass.
pub open spec fn kdf_params_valid(p: KdfParams) -> bool {
    &&& p.memory_kib >= 8
    &&& p.parallelism >= 1
    &&& p.parallelism <= 0xFF_FFFF
    &&& p.memory_kib >= 8 * p.parallelism
    &&& p.iterations >= 1
}

/// The length from which ChaCha20-Poly1305 refuses to seal a message:
/// 64 * (2^32 - 1) bytes.
pub const AEAD_MAX_PLAINTEXT: u64 = 274877906880;

/// The 32-byte key Argon2id (version 0x13) derives from `password` and
/// `salt` with parameters `params`.
pub uninterp spec fn spec_argon2id_key(password: Seq<u8>, salt: Seq<u8>, params: KdfParams) -> Seq<u8>;

/// What ChaCha20-Poly1305 makes of `plaintext` under `key` and `nonce`: the
/// ciphertext followed by the tag.
pub uninterp spec fn spec_aead_seal(key: Seq<u8>, nonce: Seq<u8>, plaintext: Seq<u8>) -> Seq<u8>;

/// What ChaCha20-Poly1305 opens `ciphertext` to under `key` and `nonce`:
/// the plaintext, or `None` when the tag does not verify.
pub uninterp spec fn spec_aead_open(key: Seq<u8>, nonce: Seq<u8>, ciphertext: Seq<u8>) -> Option<Seq<u8>>;

/// The standard Base64 encoding (with padding) of `bytes`.
pub uninterp spec fn spec_b64_encode(bytes: Seq<u8>) -> Seq<char>;

/// The bytes standard Base64 text decodes to, `None` when it is not valid.
pub uninterp spec fn spec_b64_decode(text: Seq<char>) -> Option<Seq<u8>>;

/// `n` bytes from the operating system's random source (`rand::rngs::SysRng`
/// of the `rand` crate, `try_fill_bytes`). Nothing is stated of their value;
/// an error of the source is returned as its message.
#[verifier::external_body]
fn os_random_bytes(n: usize) -> (res: Result<Vec<u8>, String>)
    ensures
        res matches Ok(b) ==> b@.len() == n,
{
    let mut buf = vec![0u8; n];
    match rand::rngs::SysRng.try_fill_bytes(&mut buf) {
        Ok(()) => Ok(buf),
        Err(err) => Err(err.to_string()),
    }
}

/// Argon2id key derivation of the `argon2` crate (`ParamsBuilder` with the
/// three costs, `Argon2::new` with `Argon2id` and version 0x13,
/// `hash_password_into` a 32-byte key). The crate refuses invalid
/// parameters and salts shorter than 8 bytes; otherwise the key is given
/// the name `spec_argon2id_key`. It may also fail for want of memory, so
/// success is not stated.
#[verifier::external_body]
fn argon2id_key(password: &[u8], salt: &[u8], params: KdfParams) -> (res: Result<Vec<u8>, String>)
    ensures
        !kdf_params_valid(params) || salt@.len() < 8 ==> res is Err,
        res matches Ok(k) ==> k@ == spec_argon2id_key(password@, salt@, params) && k@.len() == 32,
{
    let mut builder = argon2::ParamsBuilder::new();
    builder.m_cost(params.memory_kib).t_cost(params.iterations).p_cost(params.parallelism);
    let built = match builder.build() {
        Ok(p) => p,
        Err(err) => return Err(err.to_string()),
    };
    let argon2 = argon2::Argon2::new(argon2::Algorithm::Argon2id, argon2::Version::V0x13, built);
    let mut key = vec![0u8; 32];
    match argon2.hash_password_into(password, salt, &mut key) {
        Ok(()) => Ok(key),
        Err(err) => Err(err.to_string()),
    }
}

/// `Aead::encrypt` of `ChaCha20Poly1305` (`chacha20poly1305` crate) under a
/// 32-byte key and a 12-byte nonce. Its result is given the name
/// `spec_aead_seal`, and opening it again under the same key and nonce gives
/// the plaintext back. It fails exactly when the message has 2^32 - 1 or
/// more 64-byte blocks (`encrypt_inout_detached`), else it succeeds.
#[verifier::external_body]
fn aead_seal(key: &[u8], nonce: &[u8], plaintext: &[u8]) -> (res: Result<Vec<u8>, String>)
    requires
        key@.len() == 32,
        nonce@.len() == 12,
    ensures
        res is Ok <==> plaintext@.len() < AEAD_MAX_PLAINTEXT,
        res matches Ok(c) ==> c@ == spec_aead_seal(key@, nonce@, plaintext@) && spec_aead_open(key@, nonce@, c@) == Some(
            plaintext@,
        ),
{
    let cipher = chacha20poly1305::ChaCha20Poly1305::new(chacha20poly1305::Key::from_slice(key));
    match cipher.encrypt(chacha20poly1305::Nonce::from_slice(nonce), plaintext) {
        Ok(c) => Ok(c),
        Err(err) => Err(err.to_string()),
    }
}

/// `Aead::decrypt` of `ChaCha20Poly1305` under a 32-byte key and a 12-byte
/// nonce: the plaintext, or the error's message when the tag does not
/// verify; given the name `spec_aead_open`.
#[verifier::external_body]
fn aead_open(key: &[u8], nonce: &[u8], ciphertext: &[u8]) -> (res: Result<Vec<u8>, String>)
    requires
        key@.len() == 32,
        nonce@.len() == 12,
    ensures
        res matches Ok(p) ==> spec_aead_open(key@, nonce@, ciphertext@) == Some(p@),
        res is Err ==> spec_aead_open(key@, nonce@, ciphertext@) is None,
{
    let cipher = chacha20poly1305::ChaCha20Poly1305::new(chacha20poly1305::Key::from_slice(key));
    match cipher.decrypt(chacha20poly1305::Nonce::from_slice(nonce), ciphertext) {
        Ok(p) => Ok(p),
        Err(err) => Err(err.to_string()),
    }
}

/// `Engine::encode` of the `base64` crate's `STANDARD` engine; given the
/// name `spec_b64_encode`, and decoding it gives the bytes back.
#[verifier::external_body]
fn b64_encode(bytes: &[u8]) -> (res: String)
    ensures
        res@ == spec_b64_encode(bytes@),
        spec_b64_decode(res@) == Some(bytes@),
{
    base64::engine::general_purpose::STANDARD.encode(bytes)
}

/// `Engine::decode` of the `STANDARD` engine: the bytes, or the decoding
/// error's message; given the name `spec_b64_decode`.
#[verifier::external_body]
fn b64_decode(text: &str) -> (res: Result<Vec<u8>, String>)
    ensures
        res matches Ok(b) ==> spec_b64_decode(text@) == Some(b@),
        res is Err ==> spec_b64_decode(text@) is None,
{
    match base64::engine::general_purpose::STANDARD.decode(text) {
        Ok(b) => Ok(b),
        Err(err) => Err(err.to_string()),
    }
}

/// `String::from_utf8` of std: the text when the bytes are valid UTF-8,
/// else the error's message.
#[verifier::external_body]
fn utf8_string(bytes: Vec<u8>) -> (res: Result<String, String>)
    ensures
        res is Ok <==> valid_utf8(bytes@),
        res matches Ok(s) ==> s@ == decode_utf8(bytes@),
{
    match String::from_utf8(bytes) {
        Ok(s) => Ok(s),
        Err(err) => Err(err.to_string()),
    }
}

/// The plaintext bytes a passphrase (as bytes) opens a blob to: the salt,
/// nonce and ciphertext must decode, the nonce be 12 bytes, the parameters
/// and salt be accepted by Argon2, and the tag verify.
pub open spec fn spec_open_blob(password: Seq<u8>, salt: Seq<char>, nonce: Seq<char>, ciphertext: Seq<char>, kdf: KdfParams) -> Option<Seq<u8>> {
    match (spec_b64_decode(salt), spec_b64_decode(nonce), spec_b64_decode(ciphertext)) {
        (Some(s), Some(n), Some(c)) => if n.len() != 12 || !kdf_params_valid(kdf) || s.len() < 8 {
            None
        } else {
            spec_aead_open(spec_argon2id_key(password, s, kdf), n, c)
        },
        _ => None,
    }
}

/// Seals `plaintext` under an already derived 32-byte `key` and a 12-byte
/// `nonce`, recording `salt` and the default key-derivation parameters
/// beside them. Fails only for a message too long for ChaCha20-Poly1305.
pub fn seal_with_key(key: &[u8], salt: &[u8], nonce: &[u8], plaintext: &str) -> (res: Result<EncryptedBlob, AuthError>)
    requires
        key@.len() == 32,
        nonce@.len() == 12,
    ensures
        res is Ok <==> plaintext.spec_bytes().len() < AEAD_MAX_PLAINTEXT,
        res matches Ok(b) ==> {
            &&& b.ciphertext@ == spec_b64_encode(spec_aead_seal(key@, nonce@, plaintext.spec_bytes()))
            &&& b.nonce@ == spec_b64_encode(nonce@)
            &&& b.salt@ == spec_b64_encode(salt@)
            &&& b.kdf == default_kdf_params()
            &&& spec_b64_decode(b.ciphertext@) == Some(spec_aead_seal(key@, nonce@, plaintext.spec_bytes()))
            &&& spec_b64_decode(b.nonce@) == Some(nonce@)
            &&& spec_b64_decode(b.salt@) == Some(salt@)
            &&& spec_aead_open(key@, nonce@, spec_aead_seal(key@, nonce@, plaintext.spec_bytes())) == Some(
                plaintext.spec_bytes(),
            )
        },
        res matches Err(e) ==> e is Encryption,
{
    let ciphertext = match aead_seal(key, nonce, plaintext.as_bytes()) {
        Ok(c) => c,
        Err(msg) => return Err(AuthError::Encryption(msg)),
    };
    let blob = EncryptedBlob {
        ciphertext: b64_encode(ciphertext.as_slice()),
        nonce: b64_encode(nonce),
        salt: b64_encode(salt),
        kdf: KdfParams { memory_kib: 19456, iterations: 2, parallelism: 1 },
    };
    Ok(blob)
}

/// Seals `plaintext` under `passphrase` with the given 16-byte `salt` and
/// 12-byte `nonce`: the key is derived with Argon2id and the default
/// parameters. Key derivation may fail for want of memory, so success is
/// not stated; what it returns is fixed by its arguments.
pub fn seal_with(passphrase: &str, plaintext: &str, salt: &[u8], nonce: &[u8]) -> (res: Result<EncryptedBlob, AuthError>)
    requires
        salt@.len() == 16,
        nonce@.len() == 12,
    ensures
        res matches Ok(b) ==> {
            &&& b.ciphertext@ == spec_b64_encode(
                spec_aead_seal(spec_argon2id_key(passphrase.spec_bytes(), salt@, default_kdf_params()), nonce@, plaintext.spec_bytes()),
            )
            &&& b.nonce@ == spec_b64_encode(nonce@)
            &&& b.salt@ == spec_b64_encode(salt@)
            &&& b.kdf == default_kdf_params()
            &&& spec_b64_decode(b.nonce@) == Some(nonce@)
            &&& spec_b64_decode(b.salt@) == Some(salt@)
            &&& spec_open_blob(passphrase.spec_bytes(), b.salt@, b.nonce@, b.ciphertext@, b.kdf) == Some(
                plaintext.spec_bytes(),
            )
        },
        res matches Err(e) ==> e is Encryption,
{
    let params = KdfParams { memory_kib: 19456, iterations: 2, parallelism: 1 };
    let key = match argon2id_key(passphrase.as_bytes(), salt, params) {
        Ok(k) => k,
        Err(msg) => return Err(AuthError::Encryption(msg)),
    };
    seal_with_key(key.as_slice(), salt, nonce, plaintext)
}

/// Seals `plaintext` under `passphrase`: a fresh random 16-byte salt and
/// 12-byte nonce from the operating system, then `seal_with`. What it seals
/// opens again under the same passphrase to the same bytes. Fails when the
/// random source fails, and as `seal_with` does.
pub fn encrypt(passphrase: &str, plaintext: &str) -> (res: Result<EncryptedBlob, AuthError>)
    ensures
        res matches Ok(b) ==> {
            &&& b.kdf == default_kdf_params()
            &&& spec_b64_decode(b.salt@) matches Some(s) && s.len() == 16
            &&& spec_b64_decode(b.nonce@) matches Some(n) && n.len() == 12
            &&& b.ciphertext@ == spec_b64_encode(
                spec_aead_seal(
                    spec_argon2id_key(passphrase.spec_bytes(), spec_b64_decode(b.salt@)->0, default_kdf_params()),
                    spec_b64_decode(b.nonce@)->0,
                    plaintext.spec_bytes(),
                ),
            )
            &&& spec_open_blob(passphrase.spec_bytes(), b.salt@, b.nonce@, b.ciphertext@, b.kdf) == Some(
                plaintext.spec_bytes(),
            )
        },
        res matches Err(e) ==> e is Encryption,
{
    let salt = match os_random_bytes(16) {
        Ok(b) => b,
        Err(msg) => return Err(AuthError::Encryption(msg)),
    };
    let nonce = match os_random_bytes(12) {
        Ok(b) => b,
        Err(msg) => return Err(AuthError::Encryption(msg)),
    };
    seal_with(passphrase, plaintext, salt.as_slice(), nonce.as_slice())
}

/// Opens `ciphertext` under an already derived 32-byte `key` and a 12-byte
/// `nonce`: the text it sealed. Fails exactly when the tag does not verify
/// or the bytes are not UTF-8.
pub fn open_with_key(key: &[u8], nonce: &[u8], ciphertext: &[u8]) -> (res: Result<String, AuthError>)
    requires
        key@.len() == 32,
        nonce@.len() == 12,
    ensures
        res is Ok <==> (spec_aead_open(key@, nonce@, ciphertext@) matches Some(p) && valid_utf8(p)),
        res matches Ok(s) ==> s@ == decode_utf8(spec_aead_open(key@, nonce@, ciphertext@)->0),
        res matches Err(e) ==> e is Encryption,
{
    let plaintext = match aead_open(key, nonce, ciphertext) {
        Ok(p) => p,
        Err(msg) => return Err(AuthError::Encryption(msg)),
    };
    match utf8_string(plaintext) {
        Ok(s) => Ok(s),
        Err(msg) => Err(AuthError::Encryption(msg)),
    }
}

/// Opens `blob` under `passphrase`: the text it sealed. Fails when a field
/// does not decode, the nonce is not 12 bytes, Argon2 refuses the
/// parameters or salt, the tag does not verify (a wrong passphrase), or the
/// bytes are not UTF-8; key derivation may also fail for want of memory,
/// so success is not stated. After key derivation it is `open_with_key`.
pub fn decrypt(passphrase: &str, blob: &EncryptedBlob) -> (res: Result<String, AuthError>)
    ensures
        res matches Ok(s) ==> spec_open_blob(passphrase.spec_bytes(), blob.salt@, blob.nonce@, blob.ciphertext@, blob.kdf)
            matches Some(b) && valid_utf8(b) && s@ == decode_utf8(b),
        spec_open_blob(passphrase.spec_bytes(), blob.salt@, blob.nonce@, blob.ciphertext@, blob.kdf) is None ==> res is Err,
        res matches Err(e) ==> e is Encryption,
{
    let salt = match b64_decode(blob.salt.as_str()) {
        Ok(b) => b,
        Err(msg) => return Err(AuthError::Encryption(msg)),
    };
    let nonce = match b64_decode(blob.nonce.as_str()) {
        Ok(b) => b,
        Err(msg) => return Err(AuthError::Encryption(msg)),
    };
    let ciphertext = match b64_decode(blob.ciphertext.as_str()) {
        Ok(b) => b,
        Err(msg) => return Err(AuthError::Encryption(msg)),
    };
    if nonce.len() != 12 {
        return Err(AuthError::Encryption(String::from_str("invalid nonce length")));
    }
    let key = match argon2id_key(passphrase.as_bytes(), salt.as_slice(), blob.kdf) {
        Ok(k) => k,
        Err(msg) => return Err(AuthError::Encryption(msg)),
    };
    open_with_key(key.as_slice(), nonce.as_slice(), ciphertext.as_slice())
}

/// Text sealed under a passphrase comes back unchanged: bytes a blob opens
/// to that are the UTF-8 encoding of a text are valid and decode to it.
pub proof fn law_decrypt_returns_encrypted_text(text: Seq<char>)
    ensures
        valid_utf8(vstd::utf8::encode_utf8(text)),
        decode_utf8(vstd::utf8::encode_utf8(text)) == text,
{
    vstd::utf8::encode_utf8_valid_utf8(text);
    vstd::utf8::encode_utf8_decode_utf8(text);
}

} // verus!
