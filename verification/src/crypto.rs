//! The cryptographic and encoding primitives that stored payloads are built
//! from: SHA-256, AES-256-GCM, Base64 and the random number generator. Each is
//! a call into the crate that implements it; what is claimed of the call stands
//! above it.

use vstd::prelude::*;

use aes_gcm::aead::{Aead, KeyInit};
use base64::Engine;
use rand::Rng;
use sha2::Digest;

verus! {

/// The number of bytes of an AES-256 key and of a SHA-256 digest.
pub const KEY_LEN: usize = 32;

/// The number of bytes of an AES-GCM nonce.
pub const NONCE_LEN: usize = 12;

/// The number of bytes that AES-GCM puts behind a ciphertext.
pub const TAG_LEN: usize = 16;

/// The longest plaintext that AES-GCM seals, in bytes.
pub const MAX_PLAINTEXT_LEN: u64 = 68719476704;

/// The SHA-256 digest of some bytes.
pub uninterp spec fn sha256_digest(data: Seq<u8>) -> Seq<u8>;

/// Calls `sha2::Sha256::digest`. The digest is a function of the data alone and
/// has 32 bytes.
#[verifier::external_body]
pub(crate) fn sha256(data: &[u8]) -> (digest: Vec<u8>)
    ensures
        digest@ == sha256_digest(data@),
        digest@.len() == KEY_LEN,
{
    sha2::Sha256::digest(data).to_vec()
}

/// What AES-256-GCM makes of a plaintext under a key and a nonce, without
/// associated data: the ciphertext with the tag behind it.
pub uninterp spec fn aes_sealed(key: Seq<u8>, nonce: Seq<u8>, plaintext: Seq<u8>) -> Seq<u8>;

/// What AES-256-GCM reads back from a sealed message under a key and a nonce,
/// without associated data; nothing if the tag does not match.
pub uninterp spec fn aes_opened(key: Seq<u8>, nonce: Seq<u8>, sealed: Seq<u8>) -> Option<Seq<u8>>;

/// Calls `aes_gcm::Aes256Gcm::encrypt`. It fails exactly on a plaintext that is
/// longer than the limit of AES-GCM, with an error that reads `aead::Error`.
/// What it returns is a function of key, nonce and plaintext, is 16 bytes
/// longer than the plaintext, and opens again under the same key and nonce.
#[verifier::external_body]
pub(crate) fn aes_seal(key: &[u8], nonce: &[u8], plaintext: &[u8]) -> (r: Result<Vec<u8>, String>)
    requires
        key@.len() == KEY_LEN,
        nonce@.len() == NONCE_LEN,
        plaintext@.len() + TAG_LEN <= isize::MAX,
    ensures
        r is Ok <==> plaintext@.len() <= MAX_PLAINTEXT_LEN,
        r matches Ok(sealed) ==> {
            &&& sealed@ == aes_sealed(key@, nonce@, plaintext@)
            &&& sealed@.len() == plaintext@.len() + TAG_LEN
            &&& aes_opened(key@, nonce@, sealed@) == Some(plaintext@)
        },
        r matches Err(message) ==> message@ == "aead::Error"@,
{
    let cipher = aes_gcm::Aes256Gcm::new_from_slice(key).expect("a key has 32 bytes");
    let nonce = aes_gcm::Nonce::try_from(nonce).expect("a nonce has 12 bytes");
    cipher.encrypt(&nonce, plaintext).map_err(|e| e.to_string())
}

/// Calls `aes_gcm::Aes256Gcm::decrypt`. Whether it succeeds, and with what, is
/// a function of key, nonce and message; its error reads `aead::Error`.
#[verifier::external_body]
pub(crate) fn aes_open(key: &[u8], nonce: &[u8], sealed: &[u8]) -> (r: Result<Vec<u8>, String>)
    requires
        key@.len() == KEY_LEN,
        nonce@.len() == NONCE_LEN,
    ensures
        r is Ok <==> aes_opened(key@, nonce@, sealed@) is Some,
        r matches Ok(plaintext) ==> aes_opened(key@, nonce@, sealed@) == Some(plaintext@),
        r matches Err(message) ==> message@ == "aead::Error"@,
{
    let cipher = aes_gcm::Aes256Gcm::new_from_slice(key).expect("a key has 32 bytes");
    let nonce = aes_gcm::Nonce::try_from(nonce).expect("a nonce has 12 bytes");
    cipher.decrypt(&nonce, sealed).map_err(|e| e.to_string())
}

/// Some bytes in Base64, with the standard alphabet and padding.
pub uninterp spec fn base64_text(bytes: Seq<u8>) -> Seq<char>;

/// The bytes that a text stands for in Base64, with the standard alphabet and
/// canonical padding, or else the text of the error.
pub uninterp spec fn base64_bytes(text: Seq<char>) -> Result<Seq<u8>, Seq<char>>;

/// The characters of the standard Base64 alphabet, and the padding.
pub open spec fn is_base64_char(c: char) -> bool {
    ||| 'A' <= c <= 'Z'
    ||| 'a' <= c <= 'z'
    ||| '0' <= c <= '9'
    ||| c == '+'
    ||| c == '/'
    ||| c == '='
}

/// Whether a text holds nothing but the standard alphabet and padding.
pub open spec fn is_base64_alphabet(text: Seq<char>) -> bool {
    forall|i: int| 0 <= i < text.len() ==> is_base64_char(#[trigger] text[i])
}

/// The number of characters that `len` bytes take up in padded Base64.
pub open spec fn base64_len(len: nat) -> nat {
    ((len + 2) / 3 * 4) as nat
}

/// Calls `encode` of `base64::engine::general_purpose::STANDARD`. The text is a
/// function of the bytes alone, has four characters for every three bytes or
/// part of them, holds nothing but the alphabet and the padding, and decodes to
/// the bytes again.
#[verifier::external_body]
pub(crate) fn base64_encode(bytes: &[u8]) -> (text: String)
    requires
        base64_len(bytes@.len()) <= isize::MAX,
    ensures
        text@ == base64_text(bytes@),
        text@.len() == base64_len(bytes@.len()),
        is_base64_alphabet(text@),
        (base64_bytes(text@) == Ok::<Seq<u8>, Seq<char>>(bytes@)),
{
    base64::engine::general_purpose::STANDARD.encode(bytes)
}

/// Calls `decode` of `base64::engine::general_purpose::STANDARD`. Whether it
/// succeeds, and with what, is a function of the text alone; of a `DecodeError`
/// its `Display` form is handed back.
#[verifier::external_body]
pub(crate) fn base64_decode(text: &str) -> (r: Result<Vec<u8>, String>)
    ensures
        match r {
            Ok(bytes) => base64_bytes(text@) == Ok::<Seq<u8>, Seq<char>>(bytes@),
            Err(message) => base64_bytes(text@) == Err::<Seq<u8>, Seq<char>>(message@),
        },
{
    base64::engine::general_purpose::STANDARD.decode(text).map_err(|e| e.to_string())
}

/// Calls `rand::rng` and `fill_bytes` on it. Nothing is known of the bytes but
/// how many there are.
#[verifier::external_body]
pub(crate) fn random_bytes(len: usize) -> (bytes: Vec<u8>)
    requires
        len <= isize::MAX,
    ensures
        bytes@.len() == len,
{
    let mut bytes = vec![0u8; len];
    rand::rng().fill_bytes(&mut bytes);
    bytes
}

} // verus!
