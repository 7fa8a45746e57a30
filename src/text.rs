//! Signing, verification and authenticated encryption of whole messages.
use crate::codec::{all_blank, decode_text, decoded_text, encode_text, same_bytes, trim};
use crate::error::TextError;
use crate::format::{TextCryptoFormat, TextSignFormat};
use crate::genpass::{class_count, generate_password, is_password};
use crate::primitives::{
    base64_url_encode, is_url_safe_symbol, blake3_keyed_hash, chacha20poly1305_open,
    chacha20poly1305_seal, chacha_open, chacha_seal, digest_matches, ed25519_accepts,
    ed25519_check_public, ed25519_derive_public, ed25519_point_valid, ed25519_public_key,
    ed25519_sign, ed25519_signature, ed25519_verify, keyed_hash, os_random_secret, utf8_to_string, MAX_PLAINTEXT_LEN, MAX_SEALED_LEN,
};
use vstd::prelude::*;
use vstd::slice::slice_to_vec;
use vstd::string::StringSliceAdditionalSpecFns;
use vstd::utf8::{decode_utf8, encode_utf8, is_ascii_chars, valid_utf8};

verus! {

/// Length of a signing key, a keyed-hash key, a public key and a cipher key.
pub const KEY_LEN: usize = 32;

/// Length of a cipher nonce.
pub const NONCE_LEN: usize = 12;

/// Length of an Ed25519 signature.
pub const SIGNATURE_LEN: usize = 64;

/// Copies the first `N` bytes of `bytes` into an array.
fn take_prefix<const N: usize>(bytes: &[u8]) -> (r: [u8; N])
    requires
        bytes@.len() >= N,
    ensures
        r@ == bytes@.subrange(0, N as int),
{
    let mut out = [0u8; N];
    let mut i: usize = 0;
    while i < N
        invariant
            i <= N,
            N <= bytes@.len(),
            forall|j: int| 0 <= j < i ==> out@[j] == bytes@[j],
        decreases N - i,
    {
        out[i] = bytes[i];
        i = i + 1;
    }
    assert(out@ =~= bytes@.subrange(0, N as int));
    out
}

/// Something that signs whole messages.
pub trait TextSign {
    /// The signature that `sign` gives for `message`.
    spec fn signature_of(&self, message: Seq<u8>) -> Seq<u8>;

    /// The length in bytes of this scheme's signatures.
    spec fn signature_len(&self) -> nat;

    /// Whether `signature` checks out for `message` against the verifying
    /// side of this signer's key.
    spec fn checks_out(&self, message: Seq<u8>, signature: Seq<u8>) -> bool;

    /// Signs the whole of `message`.
    fn sign(&self, message: &[u8]) -> (r: Vec<u8>)
        ensures
            r@ == self.signature_of(message@),
            r@.len() == self.signature_len(),
            self.checks_out(message@, r@),
    ;
}

/// Something that checks signatures of whole messages.
pub trait TextVerify {
    /// Whether `signature` has the shape of this scheme's signatures.
    spec fn well_shaped(&self, signature: Seq<u8>) -> bool;

    /// Whether a well-shaped `signature` is valid for `message`.
    spec fn accepts(&self, message: Seq<u8>, signature: Seq<u8>) -> bool;

    /// Whether `signature` is valid for the whole of `message`; a format
    /// error where the signature has the wrong shape.
    fn verify(&self, message: &[u8], signature: &[u8]) -> (r: Result<bool, TextError>)
        ensures
            r == (if self.well_shaped(signature@) {
                Ok::<bool, TextError>(self.accepts(message@, signature@))
            } else {
                Err::<bool, TextError>(TextError::Format)
            }),
    ;
}

/// Something that opens sealed messages.
pub trait TextDecrypt {
    /// The plaintext sealed in `sealed`, or `None` where it does not
    /// authenticate.
    spec fn opened(&self, sealed: Seq<u8>) -> Option<Seq<u8>>;

    /// Whether `sealed` is short enough to be opened.
    spec fn openable(&self, sealed: Seq<u8>) -> bool;

    /// Opens the sealed message that the base64 text `text` stands for: a
    /// format error where it is not such text (in particular where, blanks
    /// trimmed, it holds a byte outside the URL-safe alphabet), a
    /// cryptographic error where it is too long to open or does not
    /// authenticate.
    fn decrypt(&self, text: &[u8]) -> (r: Result<Vec<u8>, TextError>)
        ensures
            same_bytes(
                r,
                match decoded_text(text@) {
                    Ok(sealed) => if self.openable(sealed) {
                        match self.opened(sealed) {
                            Some(p) => Ok(p),
                            None => Err(TextError::Crypto),
                        }
                    } else {
                        Err(TextError::Crypto)
                    },
                    Err(e) => Err(e),
                },
            ),
            (exists|i: int|
                0 <= i < trim(text@).len() && !is_url_safe_symbol(#[trigger] trim(text@)[i]))
                ==> r == Err::<Vec<u8>, TextError>(TextError::Format),
    ;
}

/// Something that seals messages so that they can be opened again.
pub trait TextEncrypt: TextDecrypt {
    /// Whether `plain` is short enough to be sealed.
    spec fn sealable(&self, plain: Seq<u8>) -> bool;

    /// How many bytes sealing adds to a message.
    spec fn tag_len(&self) -> nat;

    /// The sealed form of `plain`.
    spec fn sealed(&self, plain: Seq<u8>) -> Seq<u8>;

    /// Seals the whole of `plain`; what it gives opens to `plain` again.
    fn encrypt(&self, plain: &[u8]) -> (r: Result<Vec<u8>, TextError>)
        ensures
            match r {
                Ok(c) => self.sealable(plain@) && c@ == self.sealed(plain@) && c@.len()
                    == plain@.len() + self.tag_len() && self.openable(c@) && self.opened(c@)
                    == Some(plain@),
                Err(e) => !self.sealable(plain@) && e == TextError::Crypto,
            },
    ;
}

/// Key material read from the contents of a key file.
pub trait KeyLoader: Sized {
    /// Whether `r` is what loading the key file contents `contents` gives.
    spec fn loads(contents: Seq<u8>, r: Result<Self, TextError>) -> bool;

    /// Reads key material from the contents of a key file.
    fn load(contents: &[u8]) -> (r: Result<Self, TextError>)
        ensures
            Self::loads(contents@, r),
    ;
}

/// The byte strings held in a key bundle.
pub open spec fn bundle_view(keys: Seq<Vec<u8>>) -> Seq<Seq<u8>> {
    keys.map_values(|k: Vec<u8>| k@)
}

/// Fresh key material.
pub trait KeyGenerator {
    /// Whether `keys` is a key bundle that `generate` may give.
    spec fn generated(keys: Seq<Seq<u8>>) -> bool;

    /// Whether `generate` draws on nothing that can fail.
    spec fn infallible() -> bool;

    /// A fresh key bundle, or a cryptographic error where no randomness
    /// could be had.
    fn generate() -> (r: Result<Vec<Vec<u8>>, TextError>)
        ensures
            match r {
                Ok(keys) => Self::generated(bundle_view(keys@)),
                Err(e) => !Self::infallible() && e == TextError::Crypto,
            },
    ;
}

/// The BLAKE3 keyed-hash scheme: one 32-byte key signs and verifies.
pub struct Blake3 {
    key: [u8; 32],
}

impl View for Blake3 {
    type V = Seq<u8>;

    /// The key.
    closed spec fn view(&self) -> Seq<u8> {
        self.key@
    }
}

impl Blake3 {
    /// A signer with key `key`.
    pub fn new(key: [u8; 32]) -> (r: Self)
        ensures
            r@ == key@,
    {
        Blake3 { key }
    }

    /// A signer whose key is the first 32 bytes of `key`; a length error
    /// where there are fewer.
    pub fn try_new(key: &[u8]) -> (r: Result<Self, TextError>)
        ensures
            match r {
                Ok(s) => key@.len() >= KEY_LEN && s@ == key@.subrange(0, KEY_LEN as int),
                Err(e) => key@.len() < KEY_LEN && e == TextError::Length,
            },
    {
        if key.len() < KEY_LEN {
            return Err(TextError::Length);
        }
        Ok(Blake3::new(take_prefix(key)))
    }
}

impl TextSign for Blake3 {
    open spec fn signature_of(&self, message: Seq<u8>) -> Seq<u8> {
        blake3_keyed_hash(self@, message)
    }

    open spec fn signature_len(&self) -> nat {
        KEY_LEN as nat
    }

    /// The same key gives the same hash.
    open spec fn checks_out(&self, message: Seq<u8>, signature: Seq<u8>) -> bool {
        blake3_keyed_hash(self@, message) == signature
    }

    fn sign(&self, message: &[u8]) -> (r: Vec<u8>) {
        let digest = keyed_hash(&self.key, message);
        slice_to_vec(digest.as_slice())
    }
}

impl TextVerify for Blake3 {
    open spec fn well_shaped(&self, signature: Seq<u8>) -> bool {
        signature.len() == KEY_LEN
    }

    open spec fn accepts(&self, message: Seq<u8>, signature: Seq<u8>) -> bool {
        blake3_keyed_hash(self@, message) == signature
    }

    fn verify(&self, message: &[u8], signature: &[u8]) -> (r: Result<bool, TextError>) {
        if signature.len() != KEY_LEN {
            return Err(TextError::Format);
        }
        let digest = keyed_hash(&self.key, message);
        Ok(digest_matches(&digest, signature))
    }
}

impl KeyLoader for Blake3 {
    open spec fn loads(contents: Seq<u8>, r: Result<Self, TextError>) -> bool {
        match r {
            Ok(s) => contents.len() >= KEY_LEN && s@ == contents.subrange(0, KEY_LEN as int),
            Err(e) => contents.len() < KEY_LEN && e == TextError::Length,
        }
    }

    fn load(contents: &[u8]) -> (r: Result<Self, TextError>) {
        Blake3::try_new(contents)
    }
}

impl KeyGenerator for Blake3 {
    /// One key: a password of 32 symbols drawn from all four classes.
    open spec fn generated(keys: Seq<Seq<u8>>) -> bool {
        keys.len() == 1 && is_password(keys[0], KEY_LEN as nat, true, true, true, true)
    }

    open spec fn infallible() -> bool {
        true
    }

    fn generate() -> (r: Result<Vec<Vec<u8>>, TextError>) {
        match generate_password(32, true, true, true, true) {
            Ok(key) => {
                let keys: Vec<Vec<u8>> = vec![key];
                assert(bundle_view(keys@) =~= seq![keys@[0]@]);
                Ok(keys)
            },
            Err(e) => {
                assert(class_count(true, true, true, true) == 4);
                Err(e)
            },
        }
    }
}

/// A keyed-hash signature made with a key verifies under the same key:
/// whatever `sign` gives for `message` is well shaped and accepted.
pub proof fn lemma_keyed_hash_sign_verify(key: Blake3, message: Seq<u8>, signature: Seq<u8>)
    requires
        signature == key.signature_of(message),
        signature.len() == key.signature_len(),
    ensures
        key.well_shaped(signature),
        key.accepts(message, signature),
{
}

/// An Ed25519 signature verifies under the public key of the secret key
/// that made it: whatever `sign` gives for `message` is well shaped and
/// accepted by a verifier holding that public key.
pub proof fn lemma_ed25519_sign_verify(
    signer: Ed25519Signer,
    verifier: Ed25519Verifier,
    message: Seq<u8>,
    signature: Seq<u8>,
)
    requires
        verifier@ == ed25519_public_key(signer@),
        signature.len() == signer.signature_len(),
        signer.checks_out(message, signature),
    ensures
        verifier.well_shaped(signature),
        verifier.accepts(message, signature),
{
}

/// The Ed25519 signing side: a 32-byte secret key.
pub struct Ed25519Signer {
    key: [u8; 32],
}

impl View for Ed25519Signer {
    type V = Seq<u8>;

    /// The secret key.
    closed spec fn view(&self) -> Seq<u8> {
        self.key@
    }
}

/// The Ed25519 verifying side: a 32-byte public key.
pub struct Ed25519Verifier {
    key: [u8; 32],
}

impl View for Ed25519Verifier {
    type V = Seq<u8>;

    /// The public key.
    closed spec fn view(&self) -> Seq<u8> {
        self.key@
    }
}

impl Ed25519Signer {
    /// A signer with secret key `key`.
    pub fn new(key: [u8; 32]) -> (r: Self)
        ensures
            r@ == key@,
    {
        Ed25519Signer { key }
    }

    /// A signer whose secret key is the first 32 bytes of `key`; a length
    /// error where there are fewer.
    pub fn try_new(key: &[u8]) -> (r: Result<Self, TextError>)
        ensures
            match r {
                Ok(s) => key@.len() >= KEY_LEN && s@ == key@.subrange(0, KEY_LEN as int),
                Err(e) => key@.len() < KEY_LEN && e == TextError::Length,
            },
    {
        if key.len() < KEY_LEN {
            return Err(TextError::Length);
        }
        Ok(Ed25519Signer::new(take_prefix(key)))
    }

    /// The verifier for this signer's public key. Every signature that this
    /// signer makes verifies under it.
    pub fn verifying_key(&self) -> (r: Ed25519Verifier)
        ensures
            r@ == ed25519_public_key(self@),
            r@.len() == KEY_LEN,
            ed25519_point_valid(r@),
            forall|m: Seq<u8>| #[trigger] r.accepts(m, self.signature_of(m)),
    {
        let public = ed25519_derive_public(&self.key);
        let r = Ed25519Verifier::new(public);
        assert forall|m: Seq<u8>| #[trigger] r.accepts(m, self.signature_of(m)) by {
            assert(ed25519_accepts(public@, m, ed25519_signature(self.key@, m)));
        }
        r
    }
}

impl TextSign for Ed25519Signer {
    open spec fn signature_of(&self, message: Seq<u8>) -> Seq<u8> {
        ed25519_signature(self@, message)
    }

    open spec fn signature_len(&self) -> nat {
        SIGNATURE_LEN as nat
    }

    /// Accepted under the public key of the secret key.
    open spec fn checks_out(&self, message: Seq<u8>, signature: Seq<u8>) -> bool {
        ed25519_accepts(ed25519_public_key(self@), message, signature)
    }

    fn sign(&self, message: &[u8]) -> (r: Vec<u8>) {
        let signature = ed25519_sign(&self.key, message);
        slice_to_vec(signature.as_slice())
    }
}

impl KeyGenerator for Ed25519Signer {
    /// A secret key followed by its public key, under which every signature
    /// made with the secret key verifies.
    open spec fn generated(keys: Seq<Seq<u8>>) -> bool {
        &&& keys.len() == 2
        &&& keys[0].len() == KEY_LEN
        &&& keys[1].len() == KEY_LEN
        &&& keys[1] == ed25519_public_key(keys[0])
        &&& ed25519_point_valid(keys[1])
        &&& forall|m: Seq<u8>| #[trigger] ed25519_accepts(keys[1], m, ed25519_signature(keys[0], m))
    }

    open spec fn infallible() -> bool {
        false
    }

    fn generate() -> (r: Result<Vec<Vec<u8>>, TextError>) {
        let secret = match os_random_secret() {
            Some(s) => s,
            None => return Err(TextError::Crypto),
        };
        let signer = Ed25519Signer::new(secret);
        let verifier = signer.verifying_key();
        let keys: Vec<Vec<u8>> = vec![
            slice_to_vec(secret.as_slice()),
            slice_to_vec(verifier.key.as_slice()),
        ];
        proof {
            let b = bundle_view(keys@);
            assert(b[0] == secret@);
            assert(b[1] == verifier@);
            assert forall|m: Seq<u8>| #[trigger]
                ed25519_accepts(b[1], m, ed25519_signature(b[0], m)) by {
                assert(verifier.accepts(m, signer.signature_of(m)));
            }
        }
        Ok(keys)
    }
}

impl KeyLoader for Ed25519Signer {
    open spec fn loads(contents: Seq<u8>, r: Result<Self, TextError>) -> bool {
        match r {
            Ok(s) => contents.len() >= KEY_LEN && s@ == contents.subrange(0, KEY_LEN as int),
            Err(e) => contents.len() < KEY_LEN && e == TextError::Length,
        }
    }

    fn load(contents: &[u8]) -> (r: Result<Self, TextError>) {
        Ed25519Signer::try_new(contents)
    }
}

impl Ed25519Verifier {
    /// A verifier with public key `key`.
    pub fn new(key: [u8; 32]) -> (r: Self)
        ensures
            r@ == key@,
    {
        Ed25519Verifier { key }
    }

    /// A verifier with public key `key`: a format error unless it is exactly
    /// 32 bytes, a cryptographic error where those bytes are no curve point.
    pub fn try_new(key: &[u8]) -> (r: Result<Self, TextError>)
        ensures
            match r {
                Ok(v) => key@.len() == KEY_LEN && ed25519_point_valid(key@) && v@ == key@,
                Err(e) => if key@.len() != KEY_LEN {
                    e == TextError::Format
                } else {
                    !ed25519_point_valid(key@) && e == TextError::Crypto
                },
            },
    {
        if key.len() != KEY_LEN {
            return Err(TextError::Format);
        }
        let public: [u8; 32] = take_prefix(key);
        assert(public@ =~= key@);
        if !ed25519_check_public(&public) {
            return Err(TextError::Crypto);
        }
        Ok(Ed25519Verifier::new(public))
    }
}

impl TextVerify for Ed25519Verifier {
    open spec fn well_shaped(&self, signature: Seq<u8>) -> bool {
        signature.len() == SIGNATURE_LEN
    }

    open spec fn accepts(&self, message: Seq<u8>, signature: Seq<u8>) -> bool {
        ed25519_accepts(self@, message, signature)
    }

    fn verify(&self, message: &[u8], signature: &[u8]) -> (r: Result<bool, TextError>) {
        if signature.len() != SIGNATURE_LEN {
            return Err(TextError::Format);
        }
        let sig: [u8; 64] = take_prefix(signature);
        assert(sig@ =~= signature@);
        Ok(ed25519_verify(&self.key, message, &sig))
    }
}

impl KeyLoader for Ed25519Verifier {
    open spec fn loads(contents: Seq<u8>, r: Result<Self, TextError>) -> bool {
        match r {
            Ok(v) => contents.len() == KEY_LEN && ed25519_point_valid(contents) && v@ == contents,
            Err(e) => if contents.len() != KEY_LEN {
                e == TextError::Format
            } else {
                !ed25519_point_valid(contents) && e == TextError::Crypto
            },
        }
    }

    fn load(contents: &[u8]) -> (r: Result<Self, TextError>) {
        Ed25519Verifier::try_new(contents)
    }
}

/// ChaCha20-Poly1305 under one 32-byte key and one 12-byte nonce.
pub struct Chacha20 {
    key: [u8; 32],
    nonce: [u8; 12],
}

impl Chacha20 {
    /// The key.
    pub closed spec fn spec_key(&self) -> Seq<u8> {
        self.key@
    }

    /// The nonce.
    pub closed spec fn spec_nonce(&self) -> Seq<u8> {
        self.nonce@
    }

    /// A cipher with key `key` and nonce `nonce`.
    pub fn new(key: [u8; 32], nonce: [u8; 12]) -> (r: Self)
        ensures
            r.spec_key() == key@,
            r.spec_nonce() == nonce@,
    {
        Chacha20 { key, nonce }
    }

    /// A cipher with the first 32 bytes of `key` as key and the first 12
    /// bytes of `nonce` as nonce; a length error where either is shorter.
    pub fn try_new(key: &[u8], nonce: &[u8]) -> (r: Result<Self, TextError>)
        ensures
            match r {
                Ok(c) => key@.len() >= KEY_LEN && nonce@.len() >= NONCE_LEN && c.spec_key()
                    == key@.subrange(0, KEY_LEN as int) && c.spec_nonce() == nonce@.subrange(
                    0,
                    NONCE_LEN as int,
                ),
                Err(e) => (key@.len() < KEY_LEN || nonce@.len() < NONCE_LEN) && e
                    == TextError::Length,
            },
    {
        if key.len() < KEY_LEN || nonce.len() < NONCE_LEN {
            return Err(TextError::Length);
        }
        Ok(Chacha20::new(take_prefix(key), take_prefix(nonce)))
    }
}

impl TextDecrypt for Chacha20 {
    open spec fn opened(&self, sealed: Seq<u8>) -> Option<Seq<u8>> {
        chacha20poly1305_open(self.spec_key(), self.spec_nonce(), sealed)
    }

    open spec fn openable(&self, sealed: Seq<u8>) -> bool {
        sealed.len() <= MAX_SEALED_LEN
    }

    fn decrypt(&self, text: &[u8]) -> (r: Result<Vec<u8>, TextError>) {
        let sealed = match decode_text(text) {
            Ok(v) => v,
            Err(e) => return Err(e),
        };
        if sealed.len() as u64 > MAX_SEALED_LEN {
            return Err(TextError::Crypto);
        }
        match chacha_open(&self.key, &self.nonce, sealed.as_slice()) {
            Some(p) => Ok(p),
            None => Err(TextError::Crypto),
        }
    }
}

impl TextEncrypt for Chacha20 {
    open spec fn sealable(&self, plain: Seq<u8>) -> bool {
        plain.len() <= MAX_PLAINTEXT_LEN
    }

    /// The 16-byte Poly1305 tag.
    open spec fn tag_len(&self) -> nat {
        16
    }

    open spec fn sealed(&self, plain: Seq<u8>) -> Seq<u8> {
        chacha20poly1305_seal(self.spec_key(), self.spec_nonce(), plain)
    }

    fn encrypt(&self, plain: &[u8]) -> (r: Result<Vec<u8>, TextError>) {
        if plain.len() as u64 > MAX_PLAINTEXT_LEN {
            return Err(TextError::Crypto);
        }
        match chacha_seal(&self.key, &self.nonce, plain) {
            Some(c) => Ok(c),
            None => Err(TextError::Crypto),
        }
    }
}

/// Fresh key material for `format`: for the keyed hash one key, for Ed25519
/// a secret key and its public key.
pub fn process_text_generate(format: TextSignFormat) -> (r: Result<Vec<Vec<u8>>, TextError>)
    ensures
        match format {
            TextSignFormat::Blake3 => r matches Ok(keys) && Blake3::generated(bundle_view(keys@)),
            TextSignFormat::Ed25519 => match r {
                Ok(keys) => Ed25519Signer::generated(bundle_view(keys@)),
                Err(e) => e == TextError::Crypto,
            },
        },
{
    match format {
        TextSignFormat::Blake3 => Blake3::generate(),
        TextSignFormat::Ed25519 => Ed25519Signer::generate(),
    }
}

/// The signature of `message` under `format` with the key file contents `key`.
pub open spec fn signature_for(format: TextSignFormat, key: Seq<u8>, message: Seq<u8>) -> Seq<u8> {
    match format {
        TextSignFormat::Blake3 => blake3_keyed_hash(key.subrange(0, KEY_LEN as int), message),
        TextSignFormat::Ed25519 => ed25519_signature(key.subrange(0, KEY_LEN as int), message),
    }
}

/// What checking the signature text `signature` for `message` under `format`
/// with the key file contents `key` gives.
pub open spec fn verify_outcome(
    format: TextSignFormat,
    key: Seq<u8>,
    message: Seq<u8>,
    signature: Seq<u8>,
) -> Result<bool, TextError> {
    match decoded_text(signature) {
        Err(e) => Err(e),
        Ok(sig) => match format {
            TextSignFormat::Blake3 => if key.len() < KEY_LEN {
                Err(TextError::Length)
            } else if sig.len() != KEY_LEN {
                Err(TextError::Format)
            } else {
                Ok(blake3_keyed_hash(key.subrange(0, KEY_LEN as int), message) == sig)
            },
            TextSignFormat::Ed25519 => if key.len() != KEY_LEN {
                Err(TextError::Format)
            } else if !ed25519_point_valid(key) {
                Err(TextError::Crypto)
            } else if sig.len() != SIGNATURE_LEN {
                Err(TextError::Format)
            } else {
                Ok(ed25519_accepts(key, message, sig))
            },
        },
    }
}

/// The length of the signature text for `format`: 32 or 64 bytes in
/// unpadded base64.
pub open spec fn signature_text_len(format: TextSignFormat) -> nat {
    match format {
        TextSignFormat::Blake3 => 43,
        TextSignFormat::Ed25519 => 86,
    }
}

/// The public key that belongs to the key file contents `key`.
pub open spec fn public_key_of(key: Seq<u8>) -> Seq<u8> {
    ed25519_public_key(key.subrange(0, KEY_LEN as int))
}

/// Signs `input` under `format` with the key file contents `key`, giving
/// the signature as unpadded URL-safe base64; a length error where the key is
/// shorter than 32 bytes. The text, read back alone or with surrounding
/// blanks, checks out: against the same key for the keyed hash, against the
/// public key of the secret key for Ed25519.
pub fn process_text_sign(input: &[u8], key: &[u8], format: TextSignFormat) -> (r: Result<
    String,
    TextError,
>)
    ensures
        match r {
            Ok(s) => {
                &&& key@.len() >= KEY_LEN
                &&& s@ == base64_url_encode(signature_for(format, key@, input@))
                &&& s@.len() == signature_text_len(format)
                &&& is_ascii_chars(s@)
                &&& forall|i: int|
                    0 <= i < encode_utf8(s@).len() ==> is_url_safe_symbol(
                        #[trigger] encode_utf8(s@)[i],
                    )
                &&& format == TextSignFormat::Blake3 ==> forall|a: Seq<u8>, b: Seq<u8>|
                    all_blank(a) && all_blank(b) ==> #[trigger] verify_outcome(
                        format,
                        key@,
                        input@,
                        a + encode_utf8(s@) + b,
                    ) == Ok::<bool, TextError>(true)
                &&& format == TextSignFormat::Ed25519 && public_key_of(key@).len() == KEY_LEN
                    && ed25519_point_valid(public_key_of(key@)) ==> forall|a: Seq<u8>, b: Seq<u8>|
                    all_blank(a) && all_blank(b) ==> #[trigger] verify_outcome(
                        format,
                        public_key_of(key@),
                        input@,
                        a + encode_utf8(s@) + b,
                    ) == Ok::<bool, TextError>(true)
            },
            Err(e) => key@.len() < KEY_LEN && e == TextError::Length,
        },
{
    let signed = match format {
        TextSignFormat::Blake3 => {
            let signer = match Blake3::load(key) {
                Ok(s) => s,
                Err(e) => return Err(e),
            };
            signer.sign(input)
        },
        TextSignFormat::Ed25519 => {
            let signer = match Ed25519Signer::load(key) {
                Ok(s) => s,
                Err(e) => return Err(e),
            };
            signer.sign(input)
        },
    };
    let text = encode_text(signed.as_slice());
    assert(encode_utf8(text@).len() == text@.len());
    Ok(text)
}

/// Checks the signature text `signature` for `input` under `format` with the
/// key file contents `key`. A signature text that, blanks trimmed, holds a
/// byte outside the URL-safe alphabet is a format error.
pub fn process_text_verify(input: &[u8], key: &[u8], format: TextSignFormat, signature: &str) -> (r:
    Result<bool, TextError>)
    ensures
        r == verify_outcome(format, key@, input@, signature.spec_bytes()),
        (exists|i: int|
            0 <= i < trim(signature.spec_bytes()).len() && !is_url_safe_symbol(
                #[trigger] trim(signature.spec_bytes())[i],
            )) ==> r == Err::<bool, TextError>(TextError::Format),
{
    let sig = match decode_text(signature.as_bytes()) {
        Ok(s) => s,
        Err(e) => return Err(e),
    };
    match format {
        TextSignFormat::Blake3 => {
            let verifier = match Blake3::load(key) {
                Ok(v) => v,
                Err(e) => return Err(e),
            };
            verifier.verify(input, sig.as_slice())
        },
        TextSignFormat::Ed25519 => {
            let verifier = match Ed25519Verifier::load(key) {
                Ok(v) => v,
                Err(e) => return Err(e),
            };
            verifier.verify(input, sig.as_slice())
        },
    }
}

/// What opening the sealed text `text` with the key file contents `key` and
/// the nonce file contents `nonce` gives.
pub open spec fn decryption_outcome(key: Seq<u8>, nonce: Seq<u8>, text: Seq<u8>) -> Result<
    Seq<u8>,
    TextError,
> {
    if key.len() < KEY_LEN || nonce.len() < NONCE_LEN {
        Err(TextError::Length)
    } else {
        match decoded_text(text) {
            Err(e) => Err(e),
            Ok(sealed) => if sealed.len() > MAX_SEALED_LEN {
                Err(TextError::Crypto)
            } else {
                match chacha20poly1305_open(
                    key.subrange(0, KEY_LEN as int),
                    nonce.subrange(0, NONCE_LEN as int),
                    sealed,
                ) {
                    Some(p) => Ok(p),
                    None => Err(TextError::Crypto),
                }
            },
        }
    }
}

/// Seals `input` with the key file contents `key` and the nonce file
/// contents `nonce`, giving the result as unpadded URL-safe base64: a length
/// error where the key or nonce is short, a cryptographic error where the
/// input is too long to seal. The text, read back alone or with surrounding
/// blanks, opens to `input` again.
pub fn process_text_encrypt(
    input: &[u8],
    key: &[u8],
    nonce: &[u8],
    format: TextCryptoFormat,
) -> (r: Result<String, TextError>)
    ensures
        match r {
            Ok(s) => {
                &&& key@.len() >= KEY_LEN
                &&& nonce@.len() >= NONCE_LEN
                &&& input@.len() <= MAX_PLAINTEXT_LEN
                &&& s@ == base64_url_encode(
                    chacha20poly1305_seal(
                        key@.subrange(0, KEY_LEN as int),
                        nonce@.subrange(0, NONCE_LEN as int),
                        input@,
                    ),
                )
                &&& s@.len() == (4 * (input@.len() + 16) + 2) / 3
                &&& is_ascii_chars(s@)
                &&& forall|i: int|
                    0 <= i < encode_utf8(s@).len() ==> is_url_safe_symbol(
                        #[trigger] encode_utf8(s@)[i],
                    )
                &&& decryption_outcome(key@, nonce@, encode_utf8(s@)) == Ok::<Seq<u8>, TextError>(
                    input@,
                )
                &&& forall|a: Seq<u8>, b: Seq<u8>|
                    all_blank(a) && all_blank(b) ==> #[trigger] decryption_outcome(
                        key@,
                        nonce@,
                        a + encode_utf8(s@) + b,
                    ) == Ok::<Seq<u8>, TextError>(input@)
            },
            Err(e) => if key@.len() < KEY_LEN || nonce@.len() < NONCE_LEN {
                e == TextError::Length
            } else {
                input@.len() > MAX_PLAINTEXT_LEN && e == TextError::Crypto
            },
        },
{
    let sealed = match format {
        TextCryptoFormat::Chacha20 => {
            let cipher = match Chacha20::try_new(key, nonce) {
                Ok(c) => c,
                Err(e) => return Err(e),
            };
            match cipher.encrypt(input) {
                Ok(c) => c,
                Err(e) => return Err(e),
            }
        },
    };
    Ok(encode_text(sealed.as_slice()))
}

/// Opens the sealed text `input` with the key file contents `key` and the
/// nonce file contents `nonce`, giving the plaintext as text: a length error
/// where the key or nonce is short, a format error where the input is not
/// base64 (in particular where, blanks trimmed, it holds a byte outside the
/// URL-safe alphabet) or the plaintext is not UTF-8, a cryptographic error
/// where the input is too long to open or does not authenticate.
pub fn process_text_decrypt(
    input: &[u8],
    key: &[u8],
    nonce: &[u8],
    format: TextCryptoFormat,
) -> (r: Result<String, TextError>)
    ensures
        match decryption_outcome(key@, nonce@, input@) {
            Ok(p) => if valid_utf8(p) {
                r matches Ok(s) && s@ == decode_utf8(p)
            } else {
                r == Err::<String, TextError>(TextError::Format)
            },
            Err(e) => r == Err::<String, TextError>(e),
        },
        key@.len() >= KEY_LEN && nonce@.len() >= NONCE_LEN && (exists|i: int|
            0 <= i < trim(input@).len() && !is_url_safe_symbol(#[trigger] trim(input@)[i])) ==> r
            == Err::<String, TextError>(TextError::Format),
{
    let plain = match format {
        TextCryptoFormat::Chacha20 => {
            let cipher = match Chacha20::try_new(key, nonce) {
                Ok(c) => c,
                Err(e) => return Err(e),
            };
            match cipher.decrypt(input) {
                Ok(p) => p,
                Err(e) => return Err(e),
            }
        },
    };
    match utf8_to_string(plain) {
        Some(s) => Ok(s),
        None => Err(TextError::Format),
    }
}

} // verus!
