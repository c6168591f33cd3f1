//! Signing, verification and authenticated encryption of a buffered text.
//!
//! Every operation works on the whole input at once and keeps nothing
//! between calls: the result depends on the key, the input and, for
//! encryption and key generation, on fresh randomness.

use vstd::prelude::*;
use vstd::pervasive::unreached;
use vstd::utf8::{decode_utf8, encode_utf8, valid_utf8};
use crate::bytes::{leading, same_bytes};
use crate::cli::text::{TextEncryptFormat, TextSignFormat};
use crate::codec::{base64_url, base64_url_decoded, decode_url, encode_url, utf8_text};
use crate::error::TextError;
use crate::primitives::{
    blake3_keyed_hash, chacha20poly1305_opened, chacha20poly1305_sealed, ed25519_check_public,
    ed25519_fresh_secret, ed25519_is_public_key, ed25519_public, ed25519_public_key, ed25519_sign,
    ed25519_signature, ed25519_strictly_valid, ed25519_verify_strict, fresh_nonce, keyed_hash,
    open, seal, PLAINTEXT_LIMIT,
};
use crate::process::gen_pass::{is_password, process_genpass};
use crate::record::{
    lemma_record_round_trip, lemma_record_text_injective, read_record, record_parts, record_text,
    write_record,
};

verus! {

/// Something that signs a text.
pub trait TextSign {
    /// The signature of `data`.
    spec fn signature(&self, data: Seq<u8>) -> Seq<u8>;

    /// Signs `data`.
    fn sign(&self, data: &[u8]) -> (r: Result<Vec<u8>, TextError>)
        ensures
            r is Ok ==> r->Ok_0@ == self.signature(data@),
    ;
}

/// Something that checks a signature against a text.
pub trait TextVerify {
    /// What checking `sig` against `data` gives: whether it matches, or why
    /// `sig` cannot be a signature at all.
    spec fn verdict(&self, data: Seq<u8>, sig: Seq<u8>) -> Result<bool, TextError>;

    /// Checks `sig` against `data`.
    fn verify(&self, data: &[u8], sig: &[u8]) -> (r: Result<bool, TextError>)
        ensures
            r == self.verdict(data@, sig@),
    ;
}

/// Something that encrypts a text into an envelope and back.
pub trait TextEncryptDecrypt {
    /// Whether `data` is short enough to be encrypted.
    spec fn encryptable(&self, data: Seq<u8>) -> bool;

    /// The envelope of `data` under `nonce`.
    spec fn envelope(&self, nonce: Seq<u8>, data: Seq<u8>) -> Seq<u8>;

    /// What opening `envelope` gives: the plaintext, or why there is none.
    spec fn plaintext(&self, envelope: Seq<u8>) -> Result<Seq<u8>, TextError>;

    /// Encrypts `data` under a fresh nonce. The envelope that comes back
    /// decrypts to `data`.
    fn encrypt(&self, data: &[u8]) -> (r: Result<Vec<u8>, TextError>)
        requires
            self.encryptable(data@),
        ensures
            r is Ok ==> exists|nonce: Seq<u8>|
                r->Ok_0@ == #[trigger] self.envelope(nonce, data@),
            r is Ok ==> self.plaintext(r->Ok_0@) == Ok::<Seq<u8>, TextError>(data@),
    ;

    /// Decrypts the envelope in `data`.
    fn decrypt(&self, data: &[u8]) -> (r: Result<Vec<u8>, TextError>)
        ensures
            match r {
                Ok(plain) => self.plaintext(data@) == Ok::<Seq<u8>, TextError>(plain@),
                Err(e) => self.plaintext(data@) == Err::<Seq<u8>, TextError>(e),
            },
    ;
}

/// Something that is made from the bytes of a key file.
pub trait KeyLoader: Sized + View<V = Seq<u8>> {
    /// The key that `source` holds, or `None` where it holds none.
    spec fn key_in(source: Seq<u8>) -> Option<Seq<u8>>;

    /// Takes the key out of `source`, the content of a key file.
    fn load(source: &[u8]) -> (r: Result<Self, TextError>)
        ensures
            match r {
                Ok(loaded) => Self::key_in(source@) == Some(loaded@),
                Err(e) => Self::key_in(source@).is_none() && e == TextError::MalformedKey,
            },
    ;
}

/// The bytes of each key in a list of keys.
pub open spec fn key_views(keys: Seq<Vec<u8>>) -> Seq<Seq<u8>> {
    keys.map_values(|key: Vec<u8>| key@)
}

/// Something whose keys can be made afresh.
pub trait KeyGenerator {
    /// Whether `keys` are what `generate` can give: how many keys, and what
    /// holds of each.
    spec fn generated(keys: Seq<Seq<u8>>) -> bool;

    /// Makes fresh key material, as the raw bytes of one or more keys.
    fn generate() -> (r: Result<Vec<Vec<u8>>, TextError>)
        ensures
            r is Ok ==> Self::generated(key_views(r->Ok_0@)),
    ;
}

/// Signs and verifies with a keyed digest.
pub struct Blake3 {
    key: [u8; 32],
}

/// Signs with the private key of a key pair.
pub struct Ed25519Signer {
    key: [u8; 32],
}

/// Verifies with the public key of a key pair.
pub struct Ed25519Verifier {
    key: [u8; 32],
}

/// Encrypts and decrypts with a secret key.
pub struct ChaCha20 {
    key: [u8; 32],
}

/// A ciphertext together with the nonce it was made with.
#[derive(Debug)]
pub struct ChaCha20EncryptedData {
    encrypt_data: Vec<u8>,
    nonce: [u8; 12],
}

impl View for Blake3 {
    type V = Seq<u8>;

    closed spec fn view(&self) -> Seq<u8> {
        self.key@
    }
}

impl View for Ed25519Signer {
    type V = Seq<u8>;

    closed spec fn view(&self) -> Seq<u8> {
        self.key@
    }
}

impl View for Ed25519Verifier {
    type V = Seq<u8>;

    closed spec fn view(&self) -> Seq<u8> {
        self.key@
    }
}

impl View for ChaCha20 {
    type V = Seq<u8>;

    closed spec fn view(&self) -> Seq<u8> {
        self.key@
    }
}

impl View for ChaCha20EncryptedData {
    type V = (Seq<u8>, Seq<u8>);

    closed spec fn view(&self) -> (Seq<u8>, Seq<u8>) {
        (self.encrypt_data@, self.nonce@)
    }
}

/// The ciphertext and nonce that an envelope text carries, or `None` where
/// the text is no base64, what it encodes is no record, or the nonce in the
/// record is not 12 bytes long.
pub open spec fn envelope_in(text: Seq<char>) -> Option<(Seq<u8>, Seq<u8>)> {
    match base64_url_decoded(text) {
        Some(record) => match record_parts(record) {
            Some(parts) => if parts.1.len() == 12 {
                Some(parts)
            } else {
                None
            },
            None => None,
        },
        None => None,
    }
}

/// The envelope of `data` under `key` and `nonce`: the UTF-8 bytes of the
/// envelope text that carries the sealed data and the nonce.
pub open spec fn chacha20_envelope(key: Seq<u8>, nonce: Seq<u8>, data: Seq<u8>) -> Seq<u8> {
    encode_utf8(base64_url(record_text(chacha20poly1305_sealed(key, nonce, data), nonce)))
}

/// What opening `envelope` under `key` gives: the plaintext; that the
/// envelope is malformed, where it is no UTF-8 or carries no ciphertext and
/// nonce; or that authentication failed.
pub open spec fn chacha20_plaintext(key: Seq<u8>, envelope: Seq<u8>) -> Result<Seq<u8>, TextError> {
    if !valid_utf8(envelope) {
        Err(TextError::MalformedSignatureOrEnvelope)
    } else {
        match envelope_in(decode_utf8(envelope)) {
            Some((encrypt_data, nonce)) => match chacha20poly1305_opened(key, nonce, encrypt_data) {
                Some(plain) => Ok(plain),
                None => Err(TextError::AuthenticationFailure),
            },
            None => Err(TextError::MalformedSignatureOrEnvelope),
        }
    }
}

/// What checking `sig` against `data` under the public key `key` gives.
pub open spec fn ed25519_verdict(key: Seq<u8>, data: Seq<u8>, sig: Seq<u8>) -> Result<
    bool,
    TextError,
> {
    if sig.len() == 64 {
        Ok(ed25519_strictly_valid(key, data, sig))
    } else {
        Err(TextError::MalformedSignatureOrEnvelope)
    }
}

impl ChaCha20EncryptedData {
    /// Puts a ciphertext and the nonce it was made with together.
    pub fn new(encrypt_data: Vec<u8>, nonce: [u8; 12]) -> (data: Self)
        ensures
            data@ == (encrypt_data@, nonce@),
    {
        Self { encrypt_data, nonce }
    }

    /// The ciphertext, authentication tag included.
    pub fn encrypt_data(&self) -> (bytes: &Vec<u8>)
        ensures
            bytes@ == self@.0,
    {
        &self.encrypt_data
    }

    /// The nonce. It is 12 bytes long.
    pub fn nonce(&self) -> (bytes: &[u8; 12])
        ensures
            bytes@ == self@.1,
    {
        &self.nonce
    }

    /// Reads an envelope text.
    pub fn try_new_from_base64(base_str: &str) -> (r: Result<Self, TextError>)
        ensures
            match r {
                Ok(data) => envelope_in(base_str@) == Some(data@),
                Err(e) => envelope_in(base_str@).is_none() && e
                    == TextError::MalformedSignatureOrEnvelope,
            },
    {
        let record = match decode_url(base_str) {
            Some(record) => record,
            None => {
                return Err(TextError::MalformedSignatureOrEnvelope);
            },
        };
        let (encrypt_data, nonce) = match read_record(record.as_slice()) {
            Some(parts) => parts,
            None => {
                return Err(TextError::MalformedSignatureOrEnvelope);
            },
        };
        if nonce.len() != 12 {
            return Err(TextError::MalformedSignatureOrEnvelope);
        }
        let nonce: [u8; 12] = leading::<12>(nonce.as_slice());
        assert(nonce@ =~= record_parts(record@).unwrap().1);
        Ok(Self { encrypt_data, nonce })
    }

    /// Writes the envelope text: the record of ciphertext and nonce in
    /// URL-safe base64 without padding. Reading the text gives this
    /// envelope back.
    pub fn to_base64(&self) -> (text: String)
        ensures
            text@ == base64_url(record_text(self@.0, self@.1)),
            envelope_in(text@) == Some(self@),
    {
        let record = write_record(self.encrypt_data.as_slice(), self.nonce.as_slice());
        proof {
            lemma_record_round_trip(self.encrypt_data@, self.nonce@);
        }
        encode_url(record.as_slice())
    }
}

impl Blake3 {
    /// Makes a signer from a key.
    pub fn new(key: [u8; 32]) -> (signer: Self)
        ensures
            signer@ == key@,
    {
        Self { key }
    }

    /// Makes a signer from the first 32 bytes of `key`.
    pub fn try_new(key: &[u8]) -> (r: Result<Self, TextError>)
        ensures
            match r {
                Ok(signer) => key@.len() >= 32 && signer@ == key@.take(32),
                Err(e) => key@.len() < 32 && e == TextError::MalformedKey,
            },
    {
        if key.len() < 32 {
            return Err(TextError::MalformedKey);
        }
        Ok(Blake3::new(leading::<32>(key)))
    }
}

impl TextSign for Blake3 {
    open spec fn signature(&self, data: Seq<u8>) -> Seq<u8> {
        blake3_keyed_hash(self@, data)
    }

    /// Signing never fails. The digest is 32 bytes long.
    fn sign(&self, data: &[u8]) -> (r: Result<Vec<u8>, TextError>)
        ensures
            r is Ok,
            r->Ok_0@.len() == 32,
    {
        let digest = keyed_hash(&self.key, data);
        Ok(vstd::slice::slice_to_vec(digest.as_slice()))
    }
}

impl TextVerify for Blake3 {
    open spec fn verdict(&self, data: Seq<u8>, sig: Seq<u8>) -> Result<bool, TextError> {
        Ok(sig == blake3_keyed_hash(self@, data))
    }

    fn verify(&self, data: &[u8], sig: &[u8]) -> (r: Result<bool, TextError>) {
        let digest = keyed_hash(&self.key, data);
        Ok(same_bytes(digest.as_slice(), sig))
    }
}

impl KeyLoader for Blake3 {
    open spec fn key_in(source: Seq<u8>) -> Option<Seq<u8>> {
        if source.len() >= 32 {
            Some(source.take(32))
        } else {
            None
        }
    }

    fn load(source: &[u8]) -> (r: Result<Self, TextError>) {
        Blake3::try_new(source)
    }
}

impl KeyGenerator for Blake3 {
    /// One key: 32 printable characters, with a capital letter, a small
    /// letter, a digit and a symbol among them.
    open spec fn generated(keys: Seq<Seq<u8>>) -> bool {
        keys.len() == 1 && is_password(keys[0], 32, true, true, true, true)
    }

    /// Generation never fails.
    fn generate() -> (r: Result<Vec<Vec<u8>>, TextError>)
        ensures
            r is Ok,
    {
        let password = process_genpass(32, true, true, true, true);
        let key = vstd::slice::slice_to_vec(password.as_str().as_bytes());
        let mut keys: Vec<Vec<u8>> = Vec::new();
        keys.push(key);
        assert(key_views(keys@) =~= seq![key@]);
        Ok(keys)
    }
}

impl Ed25519Signer {
    /// Makes a signer from a private key. Any 32 bytes are one.
    pub fn new(key: [u8; 32]) -> (signer: Self)
        ensures
            signer@ == key@,
    {
        Self { key }
    }

    /// Makes a signer from a private key of exactly 32 bytes.
    pub fn try_new(key: &[u8]) -> (r: Result<Self, TextError>)
        ensures
            match r {
                Ok(signer) => key@.len() == 32 && signer@ == key@,
                Err(e) => key@.len() != 32 && e == TextError::MalformedKey,
            },
    {
        if key.len() != 32 {
            return Err(TextError::MalformedKey);
        }
        let signer = Ed25519Signer::new(leading::<32>(key));
        assert(key@.take(32) =~= key@);
        Ok(signer)
    }

    /// Makes a signer from the content of a key file.
    pub fn load(source: &[u8]) -> (r: Result<Self, TextError>)
        ensures
            match r {
                Ok(signer) => source@.len() == 32 && signer@ == source@,
                Err(e) => source@.len() != 32 && e == TextError::MalformedKey,
            },
    {
        Ed25519Signer::try_new(source)
    }
}

impl TextSign for Ed25519Signer {
    open spec fn signature(&self, data: Seq<u8>) -> Seq<u8> {
        ed25519_signature(self@, data)
    }

    /// Signing never fails. The signature is 64 bytes long.
    fn sign(&self, data: &[u8]) -> (r: Result<Vec<u8>, TextError>)
        ensures
            r is Ok,
            r->Ok_0@.len() == 64,
    {
        let signature = ed25519_sign(&self.key, data);
        Ok(vstd::slice::slice_to_vec(signature.as_slice()))
    }
}

impl KeyLoader for Ed25519Signer {
    open spec fn key_in(source: Seq<u8>) -> Option<Seq<u8>> {
        if source.len() == 32 {
            Some(source)
        } else {
            None
        }
    }

    fn load(source: &[u8]) -> (r: Result<Self, TextError>) {
        Ed25519Signer::try_new(source)
    }
}

impl KeyGenerator for Ed25519Signer {
    /// Two keys of 32 bytes: the private key first, then the public key
    /// that belongs to it.
    open spec fn generated(keys: Seq<Seq<u8>>) -> bool {
        keys.len() == 2 && keys[0].len() == 32 && keys[1] == ed25519_public_key(keys[0])
    }

    /// Generation never fails.
    fn generate() -> (r: Result<Vec<Vec<u8>>, TextError>)
        ensures
            r is Ok,
    {
        let secret = ed25519_fresh_secret();
        let public = ed25519_public(&secret);
        let sk = vstd::slice::slice_to_vec(secret.as_slice());
        let pk = vstd::slice::slice_to_vec(public.as_slice());
        let mut keys: Vec<Vec<u8>> = Vec::new();
        keys.push(sk);
        keys.push(pk);
        assert(key_views(keys@) =~= seq![sk@, pk@]);
        Ok(keys)
    }
}

impl Ed25519Verifier {
    #[verifier::type_invariant]
    spec fn holds_public_key(self) -> bool {
        ed25519_is_public_key(self.key@)
    }

    /// Makes a verifier from a public key: bytes that encode a point of the
    /// curve. For bytes of which this is not known, there is `try_new`.
    pub fn new(key: [u8; 32]) -> (verifier: Self)
        requires
            ed25519_is_public_key(key@),
        ensures
            verifier@ == key@,
    {
        Self { key }
    }

    /// Makes a verifier from a public key: exactly 32 bytes that encode a
    /// point of the curve.
    pub fn try_new(key: &[u8]) -> (r: Result<Self, TextError>)
        ensures
            match r {
                Ok(verifier) => key@.len() == 32 && ed25519_is_public_key(key@) && verifier@
                    == key@,
                Err(e) => !(key@.len() == 32 && ed25519_is_public_key(key@)) && e
                    == TextError::MalformedKey,
            },
    {
        if key.len() != 32 {
            return Err(TextError::MalformedKey);
        }
        let bytes: [u8; 32] = leading::<32>(key);
        assert(key@.take(32) =~= key@);
        if !ed25519_check_public(&bytes) {
            return Err(TextError::MalformedKey);
        }
        Ok(Ed25519Verifier::new(bytes))
    }

    /// Makes a verifier from the content of a key file.
    pub fn load(source: &[u8]) -> (r: Result<Self, TextError>)
        ensures
            match r {
                Ok(verifier) => source@.len() == 32 && ed25519_is_public_key(source@)
                    && verifier@ == source@,
                Err(e) => !(source@.len() == 32 && ed25519_is_public_key(source@)) && e
                    == TextError::MalformedKey,
            },
    {
        Ed25519Verifier::try_new(source)
    }
}

impl TextVerify for Ed25519Verifier {
    open spec fn verdict(&self, data: Seq<u8>, sig: Seq<u8>) -> Result<bool, TextError> {
        ed25519_verdict(self@, data, sig)
    }

    fn verify(&self, data: &[u8], sig: &[u8]) -> (r: Result<bool, TextError>) {
        proof {
            use_type_invariant(self);
        }
        if sig.len() != 64 {
            return Err(TextError::MalformedSignatureOrEnvelope);
        }
        let signature: [u8; 64] = leading::<64>(sig);
        assert(sig@.take(64) =~= sig@);
        Ok(ed25519_verify_strict(&self.key, data, &signature))
    }
}

impl KeyLoader for Ed25519Verifier {
    open spec fn key_in(source: Seq<u8>) -> Option<Seq<u8>> {
        if source.len() == 32 && ed25519_is_public_key(source) {
            Some(source)
        } else {
            None
        }
    }

    fn load(source: &[u8]) -> (r: Result<Self, TextError>) {
        Ed25519Verifier::try_new(source)
    }
}

impl ChaCha20 {
    /// Makes a cipher from a key.
    pub fn new(key: [u8; 32]) -> (cipher: Self)
        ensures
            cipher@ == key@,
    {
        Self { key }
    }

    /// Makes a cipher from the first 32 bytes of `key`.
    pub fn try_new(key: &[u8]) -> (r: Result<Self, TextError>)
        ensures
            match r {
                Ok(cipher) => key@.len() >= 32 && cipher@ == key@.take(32),
                Err(e) => key@.len() < 32 && e == TextError::MalformedKey,
            },
    {
        if key.len() < 32 {
            return Err(TextError::MalformedKey);
        }
        Ok(ChaCha20::new(leading::<32>(key)))
    }

    /// Encrypts `data` under the nonce given. The envelope that comes back
    /// decrypts to `data`.
    pub fn encrypt_with_nonce(&self, nonce: [u8; 12], data: &[u8]) -> (envelope: Vec<u8>)
        requires
            self.encryptable(data@),
        ensures
            envelope@ == self.envelope(nonce@, data@),
            self.plaintext(envelope@) == Ok::<Seq<u8>, TextError>(data@),
    {
        let sealed = match seal(&self.key, &nonce, data) {
            Some(sealed) => sealed,
            None => unreached(),
        };
        let text = ChaCha20EncryptedData::new(sealed, nonce).to_base64();
        proof {
            vstd::utf8::encode_utf8_valid_utf8(text@);
            vstd::utf8::encode_utf8_decode_utf8(text@);
        }
        vstd::slice::slice_to_vec(text.as_str().as_bytes())
    }
}

impl TextEncryptDecrypt for ChaCha20 {
    open spec fn encryptable(&self, data: Seq<u8>) -> bool {
        data.len() < PLAINTEXT_LIMIT
    }

    open spec fn envelope(&self, nonce: Seq<u8>, data: Seq<u8>) -> Seq<u8> {
        chacha20_envelope(self@, nonce, data)
    }

    open spec fn plaintext(&self, envelope: Seq<u8>) -> Result<Seq<u8>, TextError> {
        chacha20_plaintext(self@, envelope)
    }

    /// Encryption never fails. The nonce is 12 bytes long.
    fn encrypt(&self, data: &[u8]) -> (r: Result<Vec<u8>, TextError>)
        ensures
            r is Ok,
            exists|nonce: Seq<u8>|
                nonce.len() == 12 && r->Ok_0@ == #[trigger] self.envelope(nonce, data@),
    {
        let nonce = fresh_nonce();
        let envelope = self.encrypt_with_nonce(nonce, data);
        assert(nonce@.len() == 12 && envelope@ == self.envelope(nonce@, data@));
        Ok(envelope)
    }

    fn decrypt(&self, data: &[u8]) -> (r: Result<Vec<u8>, TextError>) {
        let text = match utf8_text(data) {
            Some(text) => text,
            None => {
                return Err(TextError::MalformedSignatureOrEnvelope);
            },
        };
        proof {
            vstd::utf8::encode_utf8_decode_utf8(text@);
        }
        let envelope = match ChaCha20EncryptedData::try_new_from_base64(text) {
            Ok(envelope) => envelope,
            Err(e) => {
                return Err(e);
            },
        };
        match open(&self.key, &envelope.nonce, envelope.encrypt_data.as_slice()) {
            Some(plain) => Ok(plain),
            None => Err(TextError::AuthenticationFailure),
        }
    }
}

impl KeyLoader for ChaCha20 {
    open spec fn key_in(source: Seq<u8>) -> Option<Seq<u8>> {
        if source.len() >= 32 {
            Some(source.take(32))
        } else {
            None
        }
    }

    fn load(source: &[u8]) -> (r: Result<Self, TextError>) {
        ChaCha20::try_new(source)
    }
}

/// What signing `input` with the key in `key` gives.
pub open spec fn text_signature(input: Seq<u8>, key: Seq<u8>, format: TextSignFormat) -> Result<
    Seq<u8>,
    TextError,
> {
    match format {
        TextSignFormat::Blake3 => match <Blake3 as KeyLoader>::key_in(key) {
            Some(k) => Ok(blake3_keyed_hash(k, input)),
            None => Err(TextError::MalformedKey),
        },
        TextSignFormat::Ed25519 => match <Ed25519Signer as KeyLoader>::key_in(key) {
            Some(k) => Ok(ed25519_signature(k, input)),
            None => Err(TextError::MalformedKey),
        },
    }
}

/// What checking the signature in the text `sig` against `input`, with the
/// key in `key`, gives. The text is looked at first, then the key.
pub open spec fn text_verdict(
    input: Seq<u8>,
    key: Seq<u8>,
    format: TextSignFormat,
    sig: Seq<char>,
) -> Result<bool, TextError> {
    match base64_url_decoded(sig) {
        None => Err(TextError::MalformedSignatureOrEnvelope),
        Some(bytes) => match format {
            TextSignFormat::Blake3 => match <Blake3 as KeyLoader>::key_in(key) {
                Some(k) => Ok(bytes == blake3_keyed_hash(k, input)),
                None => Err(TextError::MalformedKey),
            },
            TextSignFormat::Ed25519 => match <Ed25519Verifier as KeyLoader>::key_in(key) {
                Some(k) => ed25519_verdict(k, input, bytes),
                None => Err(TextError::MalformedKey),
            },
        },
    }
}

/// What decrypting the envelope `input` with the key in `key` gives.
pub open spec fn text_plaintext(input: Seq<u8>, key: Seq<u8>, format: TextEncryptFormat) -> Result<
    Seq<u8>,
    TextError,
> {
    match format {
        TextEncryptFormat::ChaCha20Poly1305 => match <ChaCha20 as KeyLoader>::key_in(key) {
            Some(k) => chacha20_plaintext(k, input),
            None => Err(TextError::MalformedKey),
        },
    }
}

/// How many bytes a signature of this format has.
pub open spec fn signature_len(format: TextSignFormat) -> nat {
    match format {
        TextSignFormat::Blake3 => 32,
        TextSignFormat::Ed25519 => 64,
    }
}

/// Signs `input` with the key in `key`, the content of a key file.
pub fn process_text_sign(input: &[u8], key: &[u8], format: TextSignFormat) -> (r: Result<
    Vec<u8>,
    TextError,
>)
    ensures
        match r {
            Ok(sig) => text_signature(input@, key@, format) == Ok::<Seq<u8>, TextError>(sig@)
                && sig@.len() == signature_len(format),
            Err(e) => text_signature(input@, key@, format) == Err::<Seq<u8>, TextError>(e),
        },
{
    match format {
        TextSignFormat::Blake3 => {
            let signer = match Blake3::load(key) {
                Ok(signer) => signer,
                Err(e) => {
                    return Err(e);
                },
            };
            signer.sign(input)
        },
        TextSignFormat::Ed25519 => {
            let signer = match Ed25519Signer::load(key) {
                Ok(signer) => signer,
                Err(e) => {
                    return Err(e);
                },
            };
            signer.sign(input)
        },
    }
}

/// Checks the signature in the text `sig` against `input`, with the key in
/// `key`, the content of a key file. A signature that does not match is
/// reported as `Ok(false)`.
pub fn process_text_verify(input: &[u8], key: &[u8], format: TextSignFormat, sig: &str) -> (r:
    Result<bool, TextError>)
    ensures
        r == text_verdict(input@, key@, format, sig@),
{
    let sig = match decode_url(sig) {
        Some(sig) => sig,
        None => {
            return Err(TextError::MalformedSignatureOrEnvelope);
        },
    };
    match format {
        TextSignFormat::Blake3 => {
            let verifier = match Blake3::load(key) {
                Ok(verifier) => verifier,
                Err(e) => {
                    return Err(e);
                },
            };
            verifier.verify(input, sig.as_slice())
        },
        TextSignFormat::Ed25519 => {
            let verifier = match Ed25519Verifier::load(key) {
                Ok(verifier) => verifier,
                Err(e) => {
                    return Err(e);
                },
            };
            verifier.verify(input, sig.as_slice())
        },
    }
}

/// Makes fresh key material for a signing format: one key for the keyed
/// digest; for signatures the private key, then the public key.
pub fn process_key_generate(format: TextSignFormat) -> (r: Result<Vec<Vec<u8>>, TextError>)
    ensures
        r is Ok,
        match format {
            TextSignFormat::Blake3 => <Blake3 as KeyGenerator>::generated(key_views(r->Ok_0@)),
            TextSignFormat::Ed25519 => <Ed25519Signer as KeyGenerator>::generated(
                key_views(r->Ok_0@),
            ),
        },
{
    match format {
        TextSignFormat::Blake3 => Blake3::generate(),
        TextSignFormat::Ed25519 => Ed25519Signer::generate(),
    }
}

/// Encrypts `input` with the key in `key`, the content of a key file, under
/// a fresh nonce. The envelope that comes back decrypts to `input`.
pub fn process_text_encrypt(input: &[u8], key: &[u8], format: TextEncryptFormat) -> (r: Result<
    Vec<u8>,
    TextError,
>)
    requires
        input@.len() < PLAINTEXT_LIMIT,
    ensures
        match r {
            Ok(envelope) => {
                &&& key@.len() >= 32
                &&& exists|nonce: Seq<u8>|
                    nonce.len() == 12 && envelope@ == #[trigger] chacha20_envelope(
                        key@.take(32),
                        nonce,
                        input@,
                    )
                &&& text_plaintext(envelope@, key@, format) == Ok::<Seq<u8>, TextError>(input@)
            },
            Err(e) => key@.len() < 32 && e == TextError::MalformedKey,
        },
{
    match format {
        TextEncryptFormat::ChaCha20Poly1305 => {
            let cipher = match ChaCha20::load(key) {
                Ok(cipher) => cipher,
                Err(e) => {
                    return Err(e);
                },
            };
            cipher.encrypt(input)
        },
    }
}

/// Decrypts the envelope in `input` with the key in `key`, the content of a
/// key file.
pub fn process_text_decrypt(input: &[u8], key: &[u8], format: TextEncryptFormat) -> (r: Result<
    Vec<u8>,
    TextError,
>)
    ensures
        match r {
            Ok(plain) => text_plaintext(input@, key@, format) == Ok::<Seq<u8>, TextError>(plain@),
            Err(e) => text_plaintext(input@, key@, format) == Err::<Seq<u8>, TextError>(e),
        },
{
    match format {
        TextEncryptFormat::ChaCha20Poly1305 => {
            let cipher = match ChaCha20::load(key) {
                Ok(cipher) => cipher,
                Err(e) => {
                    return Err(e);
                },
            };
            cipher.decrypt(input)
        },
    }
}

/// A keyed digest verifies: whoever signs a text and then checks the
/// signature against the same text with the same key is told `true`.
pub proof fn lemma_digest_verifies(
    input: Seq<u8>,
    key: Seq<u8>,
    signature: Seq<u8>,
    sig: Seq<char>,
)
    requires
        text_signature(input, key, TextSignFormat::Blake3) == Ok::<Seq<u8>, TextError>(signature),
        base64_url_decoded(sig) == Some(signature),
    ensures
        text_verdict(input, key, TextSignFormat::Blake3, sig) == Ok::<bool, TextError>(true),
{
}

/// A keyed digest matches exactly one signature: checking any other byte
/// string against the text is told `false`, never an error.
pub proof fn lemma_digest_rejects_others(signer: Blake3, data: Seq<u8>, sig: Seq<u8>)
    ensures
        signer.verdict(data, signer.signature(data)) == Ok::<bool, TextError>(true),
        sig != signer.signature(data) ==> signer.verdict(data, sig) == Ok::<bool, TextError>(
            false,
        ),
{
}

/// Checking a signature of 64 bytes never fails: under any public key it
/// gives the verdict of strict verification, and so a boolean.
pub proof fn lemma_signature_is_judged(
    input: Seq<u8>,
    public: Seq<u8>,
    signature: Seq<u8>,
    sig: Seq<char>,
)
    requires
        signature.len() == 64,
        base64_url_decoded(sig) == Some(signature),
        public.len() == 32,
        ed25519_is_public_key(public),
    ensures
        text_verdict(input, public, TextSignFormat::Ed25519, sig) == Ok::<bool, TextError>(
            ed25519_strictly_valid(public, input, signature),
        ),
{
}

/// Under another nonce the same text has another record, whatever the
/// cipher makes of it: no two envelopes agree unless their nonces do.
pub proof fn lemma_nonce_shows_in_record(
    key: Seq<u8>,
    data: Seq<u8>,
    nonce: Seq<u8>,
    other: Seq<u8>,
)
    requires
        nonce != other,
    ensures
        record_text(chacha20poly1305_sealed(key, nonce, data), nonce) != record_text(
            chacha20poly1305_sealed(key, other, data),
            other,
        ),
{
    if record_text(chacha20poly1305_sealed(key, nonce, data), nonce) == record_text(
        chacha20poly1305_sealed(key, other, data),
        other,
    ) {
        lemma_record_text_injective(
            chacha20poly1305_sealed(key, nonce, data),
            nonce,
            chacha20poly1305_sealed(key, other, data),
            other,
        );
    }
}

/// Decryption gives the authenticated plaintext or an error, nothing else:
/// where the tag does not authenticate the ciphertext of a well-formed
/// envelope, the error is `AuthenticationFailure`.
pub proof fn lemma_tampering_is_reported(key: Seq<u8>, envelope: Seq<u8>)
    requires
        valid_utf8(envelope),
        envelope_in(decode_utf8(envelope)).is_some(),
    ensures
        ({
            let (encrypt_data, nonce) = envelope_in(decode_utf8(envelope)).unwrap();
            match chacha20poly1305_opened(key, nonce, encrypt_data) {
                Some(plain) => chacha20_plaintext(key, envelope) == Ok::<Seq<u8>, TextError>(
                    plain,
                ),
                None => chacha20_plaintext(key, envelope) == Err::<Seq<u8>, TextError>(
                    TextError::AuthenticationFailure,
                ),
            }
        }),
{
}

} // verus!
