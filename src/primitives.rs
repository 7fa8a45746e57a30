//! The cryptographic, encoding and system primitives that the library builds
//! on.
//!
//! Each executable function here makes one call into an outside crate or
//! into the standard library, and its contract is taken on trust. What the
//! call returns is either stated directly or given a name (an uninterpreted
//! spec function of the arguments alone), so that the rest of the library can
//! state exact contracts in terms of it. Results that depend on chance, the
//! clock or the disk get no name and no promise beyond their type.
use base64::engine::general_purpose::{STANDARD, URL_SAFE_NO_PAD};
use base64::Engine;
use chacha20poly1305::aead::{Aead, KeyInit};
use chacha20poly1305::{ChaCha20Poly1305, Key, Nonce};
use ed25519_dalek::{Signature, Signer, SigningKey, Verifier, VerifyingKey};
use hmac::{Hmac, Mac};
use jwt::{RegisteredClaims, SignWithKey, VerifyWithKey};
use rand::rngs::OsRng;
use rand::seq::SliceRandom;
use rand::{Rng, RngCore};
use sha2::Sha256;
use vstd::prelude::*;
use vstd::utf8::{decode_utf8, is_ascii_chars, pop_first_scalar, valid_utf8};

verus! {

/// The BLAKE3 keyed hash of `data` under the 32-byte `key`.
pub uninterp spec fn blake3_keyed_hash(key: Seq<u8>, data: Seq<u8>) -> Seq<u8>;

/// The deterministic Ed25519 signature of `message` by the 32-byte secret key `secret`.
pub uninterp spec fn ed25519_signature(secret: Seq<u8>, message: Seq<u8>) -> Seq<u8>;

/// The 32-byte compressed public key that belongs to the secret key `secret`.
pub uninterp spec fn ed25519_public_key(secret: Seq<u8>) -> Seq<u8>;

/// Whether 32 bytes decode to a usable Ed25519 public key.
pub uninterp spec fn ed25519_point_valid(public: Seq<u8>) -> bool;

/// Whether `signature` is a valid Ed25519 signature of `message` under `public`.
pub uninterp spec fn ed25519_accepts(public: Seq<u8>, message: Seq<u8>, signature: Seq<u8>) -> bool;

/// The ChaCha20-Poly1305 ciphertext, tag appended, of `plain` under `key` and `nonce`.
pub uninterp spec fn chacha20poly1305_seal(key: Seq<u8>, nonce: Seq<u8>, plain: Seq<u8>) -> Seq<u8>;

/// The plaintext recovered from `sealed` under `key` and `nonce`, or `None`
/// where the authentication tag does not match.
pub uninterp spec fn chacha20poly1305_open(key: Seq<u8>, nonce: Seq<u8>, sealed: Seq<u8>) -> Option<
    Seq<u8>,
>;

/// The unpadded URL-safe base64 text of `data`.
pub uninterp spec fn base64_url_encode(data: Seq<u8>) -> Seq<char>;

/// The bytes that the unpadded URL-safe base64 text `text` stands for, or
/// `None` where it is not such text.
pub uninterp spec fn base64_url_decode(text: Seq<u8>) -> Option<Seq<u8>>;

/// The padded standard base64 text of `data`.
pub uninterp spec fn base64_standard_encode(data: Seq<u8>) -> Seq<char>;

/// The bytes that the padded standard base64 text `text` stands for, or
/// `None` where it is not such text.
pub uninterp spec fn base64_standard_decode(text: Seq<u8>) -> Option<Seq<u8>>;

/// The HMAC-SHA256 signed token whose registered claims are the subject
/// `sub`, the audience `aud` and the expiration time `exp`, under `secret`.
pub uninterp spec fn jwt_token(sub: Seq<char>, aud: Seq<char>, exp: u64, secret: Seq<u8>) -> Seq<char>;

/// For a token whose HMAC-SHA256 signature under `secret` checks out, the
/// subject among its registered claims, if any; `None` for any other token.
pub uninterp spec fn jwt_verified_subject(token: Seq<char>, secret: Seq<u8>) -> Option<
    Option<Seq<char>>,
>;

/// The longest plaintext, in bytes, that ChaCha20-Poly1305 can seal or open:
/// 64·(2^32 − 2). The keystream has 2^32 − 1 blocks of 64 bytes after the
/// first, which goes to the Poly1305 key, and the stream cipher panics on a
/// message that needs more.
pub const MAX_PLAINTEXT_LEN: u64 = 274877906816;

/// The longest sealed message, in bytes, that ChaCha20-Poly1305 can open:
/// the longest plaintext and its 16-byte tag.
pub const MAX_SEALED_LEN: u64 = 274877906832;

/// A symbol of the URL-safe base64 alphabet (`A-Z`, `a-z`, `0-9`, `-`, `_`).
pub open spec fn is_url_safe_symbol(b: u8) -> bool {
    (65 <= b <= 90) || (97 <= b <= 122) || (48 <= b <= 57) || b == 45 || b == 95
}

/// A symbol of the standard base64 alphabet (`A-Z`, `a-z`, `0-9`, `+`, `/`)
/// or the padding `=`.
pub open spec fn is_standard_symbol(b: u8) -> bool {
    (65 <= b <= 90) || (97 <= b <= 122) || (48 <= b <= 57) || b == 43 || b == 47 || b == 61
}

/// The bytes of a text whose characters are all ASCII.
pub open spec fn ascii_bytes(s: Seq<char>) -> Seq<u8> {
    s.map_values(|c: char| c as u8)
}

/// The characters of a text whose bytes are all ASCII.
pub open spec fn ascii_chars(b: Seq<u8>) -> Seq<char> {
    b.map_values(|x: u8| x as char)
}

/// Relies on `blake3::keyed_hash`: the 32-byte keyed hash of `data`.
#[verifier::external_body]
pub(crate) fn keyed_hash(key: &[u8; 32], data: &[u8]) -> (r: [u8; 32])
    ensures
        r@ == blake3_keyed_hash(key@, data@),
{
    *blake3::keyed_hash(key, data).as_bytes()
}

/// Relies on `blake3::Hash`'s `PartialEq<[u8]>`: a constant-time comparison
/// that is true exactly when both hold the same bytes.
#[verifier::external_body]
pub(crate) fn digest_matches(digest: &[u8; 32], candidate: &[u8]) -> (r: bool)
    ensures
        r == (digest@ == candidate@),
{
    blake3::Hash::from_bytes(*digest) == *candidate
}

/// Relies on `ed25519_dalek::SigningKey::sign`: the deterministic signature
/// of `message`, which verifies under the secret key's public key.
#[verifier::external_body]
pub(crate) fn ed25519_sign(secret: &[u8; 32], message: &[u8]) -> (r: [u8; 64])
    ensures
        r@ == ed25519_signature(secret@, message@),
        ed25519_accepts(ed25519_public_key(secret@), message@, r@),
{
    SigningKey::from_bytes(secret).sign(message).to_bytes()
}

/// Relies on `ed25519_dalek::SigningKey::verifying_key`: the public key of a
/// secret key is a valid point, under which every signature made with that
/// secret key verifies.
#[verifier::external_body]
pub(crate) fn ed25519_derive_public(secret: &[u8; 32]) -> (r: [u8; 32])
    ensures
        r@ == ed25519_public_key(secret@),
        ed25519_point_valid(r@),
        forall|m: Seq<u8>| #[trigger] ed25519_accepts(r@, m, ed25519_signature(secret@, m)),
{
    SigningKey::from_bytes(secret).verifying_key().to_bytes()
}

/// Relies on `ed25519_dalek::VerifyingKey::from_bytes`: whether the bytes
/// decompress to a curve point.
#[verifier::external_body]
pub(crate) fn ed25519_check_public(public: &[u8; 32]) -> (r: bool)
    ensures
        r == ed25519_point_valid(public@),
{
    VerifyingKey::from_bytes(public).is_ok()
}

/// Relies on `ed25519_dalek::VerifyingKey::verify`: whether the signature is
/// valid for the message under the public key.
#[verifier::external_body]
pub(crate) fn ed25519_verify(public: &[u8; 32], message: &[u8], signature: &[u8; 64]) -> (r: bool)
    ensures
        r == ed25519_accepts(public@, message@, signature@),
{
    match VerifyingKey::from_bytes(public) {
        Ok(key) => key.verify(message, &Signature::from_bytes(signature)).is_ok(),
        Err(_) => false,
    }
}

/// Relies on `rand::rngs::OsRng::try_fill_bytes`, the source that
/// `ed25519_dalek::SigningKey::generate` draws from: 32 bytes from the
/// operating system, or nothing where it cannot give them.
#[verifier::external_body]
pub(crate) fn os_random_secret() -> (r: Option<[u8; 32]>) {
    let mut secret = [0u8; 32];
    OsRng.try_fill_bytes(&mut secret).ok().map(|_| secret)
}

/// Relies on `ChaCha20Poly1305::encrypt`: on a plaintext of at most
/// `MAX_PLAINTEXT_LEN` bytes (longer ones can make the stream cipher panic) it
/// succeeds; what it produces is the encrypted plaintext followed by a
/// 16-byte tag, and opens again under the same key and nonce.
#[verifier::external_body]
pub(crate) fn chacha_seal(key: &[u8; 32], nonce: &[u8; 12], plain: &[u8]) -> (r: Option<Vec<u8>>)
    requires
        plain@.len() <= MAX_PLAINTEXT_LEN,
    ensures
        r is Some,
        r matches Some(c) ==> c@ == chacha20poly1305_seal(key@, nonce@, plain@) && c@.len()
            == plain@.len() + 16 && chacha20poly1305_open(key@, nonce@, c@) == Some(plain@),
{
    ChaCha20Poly1305::new(Key::from_slice(key)).encrypt(Nonce::from_slice(nonce), plain).ok()
}

/// Relies on `ChaCha20Poly1305::decrypt`: the plaintext, or nothing where
/// the tag does not authenticate. Sealed messages longer than
/// `MAX_SEALED_LEN` bytes are left out: opening one can make the stream
/// cipher panic.
#[verifier::external_body]
pub(crate) fn chacha_open(key: &[u8; 32], nonce: &[u8; 12], sealed: &[u8]) -> (r: Option<Vec<u8>>)
    requires
        sealed@.len() <= MAX_SEALED_LEN,
    ensures
        match r {
            Some(p) => chacha20poly1305_open(key@, nonce@, sealed@) == Some(p@),
            None => chacha20poly1305_open(key@, nonce@, sealed@) is None,
        },
{
    ChaCha20Poly1305::new(Key::from_slice(key)).decrypt(Nonce::from_slice(nonce), sealed).ok()
}

/// Relies on `base64`'s `URL_SAFE_NO_PAD.encode`: the text uses only the
/// URL-safe alphabet, without padding (so four characters for every three
/// bytes, rounded up), and decodes back to `data`.
#[verifier::external_body]
pub(crate) fn base64_encode(data: &[u8]) -> (r: String)
    ensures
        r@ == base64_url_encode(data@),
        r@.len() == (4 * data@.len() + 2) / 3,
        is_ascii_chars(r@),
        forall|i: int| 0 <= i < r@.len() ==> is_url_safe_symbol(#[trigger] r@[i] as u8) && r@[i]
            == (r@[i] as u8) as char,
        base64_url_decode(ascii_bytes(r@)) == Some(data@),
{
    URL_SAFE_NO_PAD.encode(data)
}

/// Relies on `base64`'s `URL_SAFE_NO_PAD.decode`: it refuses any byte outside
/// the URL-safe alphabet.
#[verifier::external_body]
pub(crate) fn base64_decode(text: &[u8]) -> (r: Option<Vec<u8>>)
    ensures
        match r {
            Some(v) => base64_url_decode(text@) == Some(v@),
            None => base64_url_decode(text@) is None,
        },
        (exists|i: int| 0 <= i < text@.len() && !is_url_safe_symbol(#[trigger] text@[i])) ==> r is None,
{
    URL_SAFE_NO_PAD.decode(text).ok()
}

/// Relies on `base64`'s `STANDARD.encode`: the text uses only the standard
/// alphabet and padding, and decodes back to `data`.
#[verifier::external_body]
pub(crate) fn base64_standard_encode_bytes(data: &[u8]) -> (r: String)
    ensures
        r@ == base64_standard_encode(data@),
        is_ascii_chars(r@),
        forall|i: int| 0 <= i < r@.len() ==> is_standard_symbol(#[trigger] r@[i] as u8) && r@[i]
            == (r@[i] as u8) as char,
        base64_standard_decode(ascii_bytes(r@)) == Some(data@),
{
    STANDARD.encode(data)
}

/// Relies on `base64`'s `STANDARD.decode`: it refuses any byte outside the
/// standard alphabet and padding.
#[verifier::external_body]
pub(crate) fn base64_standard_decode_bytes(text: &[u8]) -> (r: Option<Vec<u8>>)
    ensures
        match r {
            Some(v) => base64_standard_decode(text@) == Some(v@),
            None => base64_standard_decode(text@) is None,
        },
        (exists|i: int| 0 <= i < text@.len() && !is_standard_symbol(#[trigger] text@[i])) ==> r is None,
{
    STANDARD.decode(text).ok()
}

/// Relies on `jwt`'s `SignWithKey::sign_with_key` for registered claims,
/// with an HMAC-SHA256 key from `hmac`: the signed token. HMAC takes keys of
/// any length and these claims always serialize, so signing always works.
#[verifier::external_body]
pub(crate) fn jwt_sign_claims(sub: String, aud: String, exp: u64, secret: &[u8]) -> (r: Option<String>)
    ensures
        r is Some,
        r matches Some(t) ==> t@ == jwt_token(sub@, aud@, exp, secret@),
{
    let claims = RegisteredClaims {
        subject: Some(sub),
        audience: Some(aud),
        expiration: Some(exp),
        ..Default::default()
    };
    let key = <Hmac<Sha256> as Mac>::new_from_slice(secret).ok()?;
    claims.sign_with_key(&key).ok()
}

/// Relies on `jwt`'s `VerifyWithKey::verify_with_key` into registered
/// claims, with an HMAC-SHA256 key from `hmac`: the subject claim of a token
/// that parses and whose signature checks out.
#[verifier::external_body]
pub(crate) fn jwt_subject(token: &str, secret: &[u8]) -> (r: Option<Option<String>>)
    ensures
        match r {
            Some(Some(s)) => jwt_verified_subject(token@, secret@) == Some(Some(s@)),
            Some(None) => jwt_verified_subject(token@, secret@) == Some(None::<Seq<char>>),
            None => jwt_verified_subject(token@, secret@) is None,
        },
{
    let key = <Hmac<Sha256> as Mac>::new_from_slice(secret).ok()?;
    let claims: RegisteredClaims = token.verify_with_key(&key).ok()?;
    Some(claims.subject)
}

/// Relies on `rand::Rng::gen_range` over the thread's generator: a number
/// below `bound`.
#[verifier::external_body]
pub(crate) fn random_below(bound: usize) -> (r: usize)
    requires
        bound > 0,
    ensures
        r < bound,
{
    rand::thread_rng().gen_range(0..bound)
}

/// Relies on `rand::seq::SliceRandom::shuffle`: the same bytes, reordered.
#[verifier::external_body]
pub(crate) fn shuffle_bytes(v: &mut Vec<u8>)
    ensures
        final(v)@.to_multiset() == old(v)@.to_multiset(),
{
    v.shuffle(&mut rand::thread_rng())
}

/// Relies on `String::from_utf8`: a string exactly where the bytes are
/// valid UTF-8, holding the characters they encode.
#[verifier::external_body]
pub(crate) fn utf8_to_string(bytes: Vec<u8>) -> (r: Option<String>)
    ensures
        r is Some <==> valid_utf8(bytes@),
        r matches Some(s) ==> s@ == decode_utf8(bytes@),
{
    String::from_utf8(bytes).ok()
}

/// ASCII bytes are valid UTF-8, one character each.
pub proof fn lemma_ascii_utf8(b: Seq<u8>)
    requires
        forall|i: int| 0 <= i < b.len() ==> #[trigger] b[i] < 128,
    ensures
        valid_utf8(b),
        decode_utf8(b) == ascii_chars(b),
    decreases b.len(),
{
    if b.len() > 0 {
        let x = b[0];
        assert(x < 128);
        assert(x & 0x7f == x) by (bit_vector)
            requires
                x < 128,
        ;
        let rest = b.drop_first();
        assert(pop_first_scalar(b) =~= rest);
        assert forall|i: int| 0 <= i < rest.len() implies #[trigger] rest[i] < 128 by {
            assert(rest[i] == b[i + 1]);
        }
        lemma_ascii_utf8(rest);
        assert(decode_utf8(b) =~= ascii_chars(b));
    } else {
        assert(decode_utf8(b) =~= ascii_chars(b));
    }
}

/// Relies on `std::path::Path::exists`: whether something is at `path`. What
/// is on disk can change, so nothing is promised of the answer.
#[verifier::external_body]
pub(crate) fn path_exists(path: &str) -> (r: bool) {
    std::path::Path::new(path).exists()
}

/// Relies on `std::path::Path::is_dir`: whether a directory is at `path`.
/// What is on disk can change, so nothing is promised of the answer.
#[verifier::external_body]
pub(crate) fn path_is_dir(path: &str) -> (r: bool) {
    std::path::Path::new(path).is_dir()
}

/// Relies on `std::time::SystemTime::now` and `duration_since(UNIX_EPOCH)`:
/// whole seconds since the Unix epoch, or nothing for a clock set before it.
#[verifier::external_body]
pub(crate) fn unix_now() -> (r: Option<u64>) {
    std::time::SystemTime::now()
        .duration_since(std::time::UNIX_EPOCH)
        .ok()
        .map(|d| d.as_secs())
}

} // verus!
