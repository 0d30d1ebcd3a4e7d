//! Stored payloads: `enc:v1:<nonce>:<ciphertext>`, both parts in Base64, sealed
//! with AES-256-GCM under a key that is derived from a password.

use vstd::prelude::*;
use vstd::string::*;
use vstd::utf8::*;

use crate::crypto::{
    aes_open, aes_seal, base64_decode, base64_encode, random_bytes, sha256, KEY_LEN,
    MAX_PLAINTEXT_LEN, NONCE_LEN, TAG_LEN,
};
use crate::text::{find_char, starts_with, text_from_utf8};

verus! {

broadcast use {encode_utf8_valid_utf8, encode_utf8_decode_utf8, decode_utf8_encode_utf8};

/// The mark that an encrypted payload begins with.
pub open spec fn payload_prefix() -> Seq<char> {
    "enc:v1:"@
}

/// A cipher: an AES-256 key.
pub struct Cipher {
    key: Vec<u8>,
}

impl View for Cipher {
    type V = Seq<u8>;

    closed spec fn view(&self) -> Seq<u8> {
        self.key@
    }
}

impl Cipher {
    #[verifier::type_invariant]
    spec fn has_key_len(self) -> bool {
        self.key@.len() == KEY_LEN
    }
}

/// The cipher that belongs to `password`: its key is the SHA-256 digest of the
/// password's bytes.
pub fn derive_cipher(password: &str) -> (cipher: Cipher)
    ensures
        cipher@ == crate::crypto::sha256_digest(encode_utf8(password@)),
        cipher@.len() == KEY_LEN,
{
    Cipher { key: sha256(password.as_bytes()) }
}

/// A payload put together from its two parts.
pub open spec fn framed(nonce: Seq<char>, ciphertext: Seq<char>) -> Seq<char> {
    payload_prefix() + nonce + ":"@ + ciphertext
}

/// Puts a payload together from its two parts, which are Base64 texts.
pub fn frame_payload(nonce: &str, ciphertext: &str) -> (payload: String)
    ensures
        payload@ == framed(nonce@, ciphertext@),
{
    let mut payload = "enc:v1:".to_owned();
    payload.append(nonce);
    payload.append(":");
    payload.append(ciphertext);
    payload
}

/// What stands in a payload before and behind the colon between its parts, or
/// the reason why it cannot be taken apart.
pub open spec fn unframed(payload: Seq<char>) -> Result<(Seq<char>, Seq<char>), Seq<char>> {
    if !crate::text::occurs_at(payload, payload_prefix(), 0) {
        Err("Payload is not encrypted"@)
    } else {
        let rest = payload.skip(payload_prefix().len() as int);
        match rest.index_of_first(':') {
            Some(colon) => Ok((rest.take(colon), rest.skip(colon + 1))),
            None => Err("Missing encrypted ciphertext"@),
        }
    }
}

/// Takes a payload apart. What comes behind the mark is split at its first
/// colon.
pub fn split_payload(payload: &str) -> (r: Result<(String, String), String>)
    ensures
        match r {
            Ok(parts) => unframed(payload@) == Ok::<(Seq<char>, Seq<char>), Seq<char>>(
                (parts.0@, parts.1@),
            ),
            Err(message) => unframed(payload@) == Err::<(Seq<char>, Seq<char>), Seq<char>>(
                message@,
            ),
        },
{
    if !starts_with(payload, "enc:v1:") {
        return Err("Payload is not encrypted".to_owned());
    }
    let prefix_len: usize = "enc:v1:".unicode_len();
    let len: usize = payload.unicode_len();
    let rest = payload.substring_char(prefix_len, len);
    assert(rest@ == payload@.skip(payload_prefix().len() as int));
    proof {
        rest@.index_of_first_ensures(':');
    }
    match find_char(rest, ':') {
        Some(colon) => {
            let rest_len: usize = rest.unicode_len();
            let nonce = rest.substring_char(0, colon);
            let ciphertext = rest.substring_char(colon + 1, rest_len);
            proof {
                let first = rest@.index_of_first(':').unwrap();
                assert(rest@.contains(':'));
                assert(first == colon) by {
                    if first < colon {
                        assert(rest@[first] == ':');
                    }
                }
            }
            assert(nonce@ == rest@.take(colon as int));
            assert(ciphertext@ == rest@.skip(colon + 1));
            Ok((nonce.to_owned(), ciphertext.to_owned()))
        },
        None => {
            assert(!rest@.contains(':'));
            Err("Missing encrypted ciphertext".to_owned())
        },
    }
}

/// The bytes of a nonce, or the reason why the decoded text is none.
pub open spec fn nonce_of(decoded: Result<Seq<u8>, Seq<char>>) -> Result<Seq<u8>, Seq<char>> {
    match decoded {
        Err(reason) => Err("Invalid encrypted nonce: "@ + reason),
        Ok(bytes) => if bytes.len() != NONCE_LEN {
            Err("Invalid encrypted nonce length"@)
        } else {
            Ok(bytes)
        },
    }
}

/// The result of a decoding with the views of what it holds.
pub open spec fn decoded_view(decoded: Result<Vec<u8>, String>) -> Result<Seq<u8>, Seq<char>> {
    match decoded {
        Ok(bytes) => Ok(bytes@),
        Err(message) => Err(message@),
    }
}

/// A textual result with the views of what it holds.
pub open spec fn outcome_view(outcome: Result<String, String>) -> Result<Seq<char>, Seq<char>> {
    match outcome {
        Ok(text) => Ok(text@),
        Err(message) => Err(message@),
    }
}

/// Accepts what the nonce part of a payload decoded to, if it has the length of
/// a nonce.
pub fn check_nonce(decoded: Result<Vec<u8>, String>) -> (r: Result<Vec<u8>, String>)
    ensures
        decoded_view(r) == nonce_of(decoded_view(decoded)),
{
    match decoded {
        Err(message) => {
            let mut text = "Invalid encrypted nonce: ".to_owned();
            text.append(message.as_str());
            Err(text)
        },
        Ok(bytes) => if bytes.len() != NONCE_LEN {
            Err("Invalid encrypted nonce length".to_owned())
        } else {
            Ok(bytes)
        },
    }
}

/// The text that an opened message holds, or the reason why there is none.
pub open spec fn opened_text(opened: Option<Seq<u8>>) -> Result<Seq<char>, Seq<char>> {
    match opened {
        None => Err("Decryption failed: aead::Error"@),
        Some(bytes) => if valid_utf8(bytes) {
            Ok(decode_utf8(bytes))
        } else {
            Err("Invalid UTF-8 plaintext: "@ + crate::text::utf8_error_text(bytes))
        },
    }
}

/// Reads the text out of an opened message.
pub fn read_plaintext(opened: Option<Vec<u8>>) -> (r: Result<String, String>)
    ensures
        outcome_view(r) == opened_text(
            match opened {
                Some(bytes) => Some(bytes@),
                None => None,
            },
        ),
{
    match opened {
        None => Err("Decryption failed: aead::Error".to_owned()),
        Some(bytes) => match text_from_utf8(bytes) {
            Ok(text) => Ok(text),
            Err(message) => {
                let mut report = "Invalid UTF-8 plaintext: ".to_owned();
                report.append(message.as_str());
                Err(report)
            },
        },
    }
}

/// The payload that `text` is stored as under a key and a nonce.
pub open spec fn sealed_payload(key: Seq<u8>, nonce: Seq<u8>, text: Seq<char>) -> Seq<char> {
    framed(
        crate::crypto::base64_text(nonce),
        crate::crypto::base64_text(crate::crypto::aes_sealed(key, nonce, encode_utf8(text))),
    )
}

/// Whether the payload of `text` is short enough for a string on this machine.
pub open spec fn payload_fits(text: Seq<char>) -> bool {
    crate::crypto::base64_len(encode_utf8(text).len() + TAG_LEN as nat) <= isize::MAX
}

/// What a text is encrypted to: the payload, or the error of a text that is
/// longer than AES-GCM takes.
pub open spec fn encrypted(key: Seq<u8>, nonce: Seq<u8>, text: Seq<char>) -> Result<
    Seq<char>,
    Seq<char>,
> {
    if encode_utf8(text).len() <= MAX_PLAINTEXT_LEN {
        Ok(sealed_payload(key, nonce, text))
    } else {
        Err("Encryption failed: aead::Error"@)
    }
}

/// What a payload is decrypted to: the text, or the reason why it cannot be
/// read.
pub open spec fn decrypted(key: Seq<u8>, payload: Seq<char>) -> Result<Seq<char>, Seq<char>> {
    match unframed(payload) {
        Err(reason) => Err(reason),
        Ok((nonce_text, ciphertext_text)) => match nonce_of(
            crate::crypto::base64_bytes(nonce_text),
        ) {
            Err(reason) => Err(reason),
            Ok(nonce) => match crate::crypto::base64_bytes(ciphertext_text) {
                Err(reason) => Err("Invalid encrypted ciphertext: "@ + reason),
                Ok(ciphertext) => opened_text(crate::crypto::aes_opened(key, nonce, ciphertext)),
            },
        },
    }
}

/// Encrypts `text` under a given nonce. The payload that comes out decrypts to
/// `text` again.
pub fn encrypt_with_nonce(cipher: &Cipher, nonce: &Vec<u8>, text: &str) -> (r: Result<
    String,
    String,
>)
    requires
        nonce@.len() == NONCE_LEN,
        payload_fits(text@),
    ensures
        outcome_view(r) == encrypted(cipher@, nonce@, text@),
        r matches Ok(payload) ==> decrypted(cipher@, payload@) == Ok::<Seq<char>, Seq<char>>(
            text@,
        ),
{
    proof {
        use_type_invariant(cipher);
    }
    let bytes = text.as_bytes();
    match aes_seal(cipher.key.as_slice(), nonce.as_slice(), bytes) {
        Err(message) => {
            let mut report = "Encryption failed: ".to_owned();
            report.append(message.as_str());
            proof {
                reveal_strlit("Encryption failed: ");
                reveal_strlit("aead::Error");
                reveal_strlit("Encryption failed: aead::Error");
            }
            assert(report@ =~= "Encryption failed: aead::Error"@);
            Err(report)
        },
        Ok(sealed) => {
            let nonce_text = base64_encode(nonce.as_slice());
            let sealed_text = base64_encode(sealed.as_slice());
            let payload = frame_payload(nonce_text.as_str(), sealed_text.as_str());
            proof {
                lemma_unframed_framed(nonce_text@, sealed_text@);
            }
            Ok(payload)
        },
    }
}

/// Encrypts `text` under a fresh random nonce.
pub fn encrypt_payload(cipher: &Cipher, text: &str) -> (r: Result<String, String>)
    requires
        payload_fits(text@),
    ensures
        exists|nonce: Seq<u8>|
            nonce.len() == NONCE_LEN && outcome_view(r) == #[trigger] encrypted(
                cipher@,
                nonce,
                text@,
            ),
        r is Ok <==> encode_utf8(text@).len() <= MAX_PLAINTEXT_LEN,
        r matches Ok(payload) ==> decrypted(cipher@, payload@) == Ok::<Seq<char>, Seq<char>>(
            text@,
        ),
{
    let nonce = random_bytes(NONCE_LEN);
    encrypt_with_nonce(cipher, &nonce, text)
}

/// Decrypts a payload.
pub fn decrypt_payload(cipher: &Cipher, payload: &str) -> (r: Result<String, String>)
    ensures
        outcome_view(r) == decrypted(cipher@, payload@),
{
    proof {
        use_type_invariant(cipher);
    }
    let parts = match split_payload(payload) {
        Ok(parts) => parts,
        Err(message) => {
            return Err(message);
        },
    };
    let nonce = match check_nonce(base64_decode(parts.0.as_str())) {
        Ok(nonce) => nonce,
        Err(message) => {
            return Err(message);
        },
    };
    let ciphertext = match base64_decode(parts.1.as_str()) {
        Ok(ciphertext) => ciphertext,
        Err(message) => {
            let mut report = "Invalid encrypted ciphertext: ".to_owned();
            report.append(message.as_str());
            return Err(report);
        },
    };
    match aes_open(cipher.key.as_slice(), nonce.as_slice(), ciphertext.as_slice()) {
        Ok(plaintext) => read_plaintext(Some(plaintext)),
        Err(_) => read_plaintext(None),
    }
}

/// Taking apart what was put together gives the parts again, as long as the
/// first part holds nothing but Base64 characters.
pub proof fn lemma_unframed_framed(nonce: Seq<char>, ciphertext: Seq<char>)
    requires
        crate::crypto::is_base64_alphabet(nonce),
    ensures
        unframed(framed(nonce, ciphertext)) == Ok::<(Seq<char>, Seq<char>), Seq<char>>(
            (nonce, ciphertext),
        ),
{
    let payload = framed(nonce, ciphertext);
    let prefix = payload_prefix();
    reveal_strlit(":");
    assert(payload.subrange(0, prefix.len() as int) =~= prefix);
    let rest = payload.skip(prefix.len() as int);
    assert(rest =~= nonce + ":"@ + ciphertext);
    assert(rest[nonce.len() as int] == ':');
    assert(rest.contains(':'));
    rest.index_of_first_ensures(':');
    let colon = rest.index_of_first(':').unwrap();
    if colon < nonce.len() {
        assert(rest[colon] == nonce[colon]);
        assert(crate::crypto::is_base64_char(nonce[colon]));
    }
    assert(colon == nonce.len());
    assert(rest.take(colon) =~= nonce);
    assert(rest.skip(colon + 1) =~= ciphertext);
}

/// Every payload that is put together begins with the mark of an encrypted one.
pub proof fn lemma_framed_is_marked(nonce: Seq<char>, ciphertext: Seq<char>)
    ensures
        crate::text::occurs_at(framed(nonce, ciphertext), payload_prefix(), 0),
{
    let payload = framed(nonce, ciphertext);
    assert(payload.subrange(0, payload_prefix().len() as int) =~= payload_prefix());
}

/// A payload is taken apart into a nonce and a ciphertext exactly if it is the
/// mark, the nonce, a colon and the ciphertext, where the nonce holds no colon.
pub proof fn law_payloads_are_taken_apart_at_the_first_colon(
    nonce: Seq<char>,
    ciphertext: Seq<char>,
    payload: Seq<char>,
)
    requires
        !nonce.contains(':'),
    ensures
        unframed("enc:v1:"@ + nonce + seq![':'] + ciphertext) == Ok::<
            (Seq<char>, Seq<char>),
            Seq<char>,
        >((nonce, ciphertext)),
        framed(nonce, ciphertext) == "enc:v1:"@ + nonce + seq![':'] + ciphertext,
        unframed(payload) matches Ok((n, c)) ==> payload == "enc:v1:"@ + n + seq![':'] + c
            && !n.contains(':'),
{
    let mark = "enc:v1:"@;
    reveal_strlit(":");
    assert(":"@ =~= seq![':']);
    let whole = mark + nonce + seq![':'] + ciphertext;
    assert(whole.subrange(0, mark.len() as int) =~= mark);
    let rest = whole.skip(mark.len() as int);
    assert(rest =~= nonce + seq![':'] + ciphertext);
    assert(rest[nonce.len() as int] == ':');
    rest.index_of_first_ensures(':');
    let colon = rest.index_of_first(':').unwrap();
    if colon < nonce.len() {
        assert(rest[colon] == nonce[colon]);
        assert(nonce.contains(':'));
    }
    assert(rest.take(colon) =~= nonce);
    assert(rest.skip(colon + 1) =~= ciphertext);
    if let Ok((n, c)) = unframed(payload) {
        let tail = payload.skip(mark.len() as int);
        crate::text::law_beginning(payload, mark, tail);
        tail.index_of_first_ensures(':');
        let at = tail.index_of_first(':').unwrap();
        assert(tail.contains(':'));
        assert(tail =~= n + seq![':'] + c);
        assert(payload =~= mark + n + seq![':'] + c);
        if n.contains(':') {
            let k = n.index_of(':');
            assert(tail[k] == ':');
        }
    }
}

/// A payload is refused as not encrypted exactly if it lacks the mark.
pub proof fn law_only_marked_payloads_are_encrypted(payload: Seq<char>, tail: Seq<char>)
    ensures
        unframed("enc:v1:"@ + tail) != Err::<(Seq<char>, Seq<char>), Seq<char>>(
            "Payload is not encrypted"@,
        ),
        (forall|rest: Seq<char>| payload != #[trigger] ("enc:v1:"@ + rest)) ==> unframed(payload)
            == Err::<(Seq<char>, Seq<char>), Seq<char>>("Payload is not encrypted"@),
{
    crate::text::law_beginning(payload, "enc:v1:"@, tail);
    reveal_strlit("Payload is not encrypted");
    reveal_strlit("Missing encrypted ciphertext");
    assert("Payload is not encrypted"@[0] != "Missing encrypted ciphertext"@[0]);
    if crate::text::occurs_at(payload, "enc:v1:"@, 0) {
        assert(payload == "enc:v1:"@ + payload.skip("enc:v1:"@.len() as int));
    }
}

/// A payload gives a text exactly if it can be taken apart, its nonce decodes to
/// twelve bytes, its ciphertext decodes and opens under the key and that nonce,
/// and what comes out is the text's UTF-8.
pub proof fn law_decryption_opens_what_was_sealed(
    key: Seq<u8>,
    payload: Seq<char>,
    text: Seq<char>,
    nonce: Seq<char>,
    ciphertext: Seq<char>,
    nonce_bytes: Seq<u8>,
    sealed: Seq<u8>,
)
    requires
        !nonce.contains(':'),
    ensures
        payload == "enc:v1:"@ + nonce + seq![':'] + ciphertext && nonce_bytes.len() == 12
            && crate::crypto::base64_bytes(nonce) == Ok::<Seq<u8>, Seq<char>>(nonce_bytes)
            && crate::crypto::base64_bytes(ciphertext) == Ok::<Seq<u8>, Seq<char>>(sealed)
            && crate::crypto::aes_opened(key, nonce_bytes, sealed) == Some(encode_utf8(text))
            ==> decrypted(key, payload) == Ok::<Seq<char>, Seq<char>>(text),
        decrypted(key, payload) == Ok::<Seq<char>, Seq<char>>(text) ==> exists|
            n: Seq<char>,
            c: Seq<char>,
            b: Seq<u8>,
            s: Seq<u8>,
        |
            #![trigger n + seq![':'] + c, crate::crypto::aes_opened(key, b, s)]
            payload == "enc:v1:"@ + (n + seq![':'] + c) && !n.contains(':') && b.len() == 12
                && crate::crypto::base64_bytes(n) == Ok::<Seq<u8>, Seq<char>>(b)
                && crate::crypto::base64_bytes(c) == Ok::<Seq<u8>, Seq<char>>(s)
                && crate::crypto::aes_opened(key, b, s) == Some(encode_utf8(text)),
{
    law_payloads_are_taken_apart_at_the_first_colon(nonce, ciphertext, payload);
    if decrypted(key, payload) == Ok::<Seq<char>, Seq<char>>(text) {
        let (n, c) = unframed(payload)->Ok_0;
        let b = crate::crypto::base64_bytes(n)->Ok_0;
        let s = crate::crypto::base64_bytes(c)->Ok_0;
        assert(payload =~= "enc:v1:"@ + (n + seq![':'] + c));
        assert(crate::crypto::aes_opened(key, b, s) == Some(encode_utf8(text)));
    }
}

/// The payload of a text shows its nonce and what was sealed under it: a reader
/// with the key finds both where they belong.
pub proof fn law_payload_shows_nonce_and_ciphertext(
    key: Seq<u8>,
    nonce: Seq<u8>,
    text: Seq<char>,
)
    ensures
        sealed_payload(key, nonce, text) == "enc:v1:"@ + crate::crypto::base64_text(nonce) + seq![
            ':',
        ] + crate::crypto::base64_text(crate::crypto::aes_sealed(key, nonce, encode_utf8(text))),
        encode_utf8(text).len() <= 68719476704 ==> encrypted(key, nonce, text) == Ok::<
            Seq<char>,
            Seq<char>,
        >(sealed_payload(key, nonce, text)),
        encode_utf8(text).len() > 68719476704 ==> encrypted(key, nonce, text) is Err,
{
    reveal_strlit(":");
    assert(":"@ =~= seq![':']);
}

/// A nonce is accepted as it is exactly if it could be decoded and has twelve bytes.
/// A plaintext is the text whose UTF-8 it is. What could not be decoded or read is
/// refused with the reason at the end of the message.
pub proof fn law_parts_are_accepted_as_they_are(
    bytes: Seq<u8>,
    text: Seq<char>,
    reason: Seq<char>,
    decoded: Result<Seq<u8>, Seq<char>>,
)
    ensures
        bytes.len() == 12 ==> nonce_of(Ok(bytes)) == Ok::<Seq<u8>, Seq<char>>(bytes),
        nonce_of(decoded) is Ok ==> decoded == nonce_of(decoded) && decoded->Ok_0.len() == 12,
        nonce_of(Err(reason)) matches Err(message) && message.len() >= reason.len()
            && message.skip(message.len() - reason.len()) == reason,
        opened_text(Some(encode_utf8(text))) == Ok::<Seq<char>, Seq<char>>(text),
        opened_text(Some(bytes)) matches Ok(read) ==> encode_utf8(read) == bytes,
        opened_text(None) is Err,
{
    let message = "Invalid encrypted nonce: "@ + reason;
    assert(message.skip(message.len() - reason.len()) =~= reason);
}

} // verus!
