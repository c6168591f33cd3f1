//! The formats of signing and of encryption, by name, and the requests
//! that a front end makes of this library.
//!
//! A request names its input and its key by locator. Reading them is for
//! the front end; `execute` takes what was read and gives what is to be
//! printed or written.

use vstd::prelude::*;
use vstd::pervasive::unreached;
use vstd::string::StringExecFns;
use vstd::utf8::encode_utf8;
use crate::codec::{base64_url, encode_url, lowercase, to_lowercase, utf8_text};
use crate::error::TextError;
use crate::primitives::PLAINTEXT_LIMIT;
use crate::process::text::{
    chacha20_envelope, key_views, process_key_generate, process_text_decrypt,
    process_text_encrypt, process_text_sign, process_text_verify, text_plaintext,
    text_signature, text_verdict, Blake3, Ed25519Signer, KeyGenerator,
};

verus! {

/// How a text is signed.
#[derive(Debug, Clone, Copy, PartialEq, Eq, Structural)]
pub enum TextSignFormat {
    /// A keyed digest: whoever holds the key can sign and verify.
    Blake3,
    /// A signature: the private key signs, the public key verifies.
    Ed25519,
}

/// How a text is encrypted.
#[derive(Debug, Clone, Copy, PartialEq, Eq, Structural)]
pub enum TextEncryptFormat {
    /// Authenticated encryption with a 32-byte key and a fresh nonce.
    ChaCha20Poly1305,
}

impl TextSignFormat {
    /// The token that names this format.
    pub open spec fn spec_name(self) -> Seq<char> {
        match self {
            TextSignFormat::Blake3 => "blake3"@,
            TextSignFormat::Ed25519 => "ed25519"@,
        }
    }

    /// The token that names this format.
    pub fn name(self) -> (token: &'static str)
        ensures
            token@ == self.spec_name(),
    {
        match self {
            TextSignFormat::Blake3 => "blake3",
            TextSignFormat::Ed25519 => "ed25519",
        }
    }
}

impl TextEncryptFormat {
    /// The token that names this format.
    pub open spec fn spec_name(self) -> Seq<char> {
        match self {
            TextEncryptFormat::ChaCha20Poly1305 => "chacha20poly1305"@,
        }
    }

    /// The token that names this format.
    pub fn name(self) -> (token: &'static str)
        ensures
            token@ == self.spec_name(),
    {
        match self {
            TextEncryptFormat::ChaCha20Poly1305 => "chacha20poly1305",
        }
    }
}

/// The signing format that a token in lower case names.
pub open spec fn sign_format_named(token: Seq<char>) -> Option<TextSignFormat> {
    if token == "blake3"@ {
        Some(TextSignFormat::Blake3)
    } else if token == "ed25519"@ {
        Some(TextSignFormat::Ed25519)
    } else {
        None
    }
}

/// The encryption format that a token in lower case names.
pub open spec fn encrypt_format_named(token: Seq<char>) -> Option<TextEncryptFormat> {
    if token == "chacha20poly1305"@ {
        Some(TextEncryptFormat::ChaCha20Poly1305)
    } else {
        None
    }
}

/// Resolves a token that is already in lower case to a signing format.
pub fn sign_format_of(token: String) -> (r: Result<TextSignFormat, TextError>)
    ensures
        match r {
            Ok(format) => sign_format_named(token@) == Some(format),
            Err(e) => sign_format_named(token@).is_none() && e.is_unknown_algorithm(
                token@,
                "blake3, ed25519"@,
            ),
        },
{
    if token == String::from_str("blake3") {
        Ok(TextSignFormat::Blake3)
    } else if token == String::from_str("ed25519") {
        Ok(TextSignFormat::Ed25519)
    } else {
        Err(TextError::UnknownAlgorithm { token, valid: String::from_str("blake3, ed25519") })
    }
}

/// Resolves a token that is already in lower case to an encryption format.
pub fn encrypt_format_of(token: String) -> (r: Result<TextEncryptFormat, TextError>)
    ensures
        match r {
            Ok(format) => encrypt_format_named(token@) == Some(format),
            Err(e) => encrypt_format_named(token@).is_none() && e.is_unknown_algorithm(
                token@,
                "chacha20poly1305"@,
            ),
        },
{
    if token == String::from_str("chacha20poly1305") {
        Ok(TextEncryptFormat::ChaCha20Poly1305)
    } else {
        Err(TextError::UnknownAlgorithm { token, valid: String::from_str("chacha20poly1305") })
    }
}

/// Resolves a format token, in any letter case, to a signing format.
pub fn verify_format(ft: &str) -> (r: Result<TextSignFormat, TextError>)
    ensures
        match r {
            Ok(format) => sign_format_named(lowercase(ft@)) == Some(format),
            Err(e) => sign_format_named(lowercase(ft@)).is_none() && e.is_unknown_algorithm(
                lowercase(ft@),
                "blake3, ed25519"@,
            ),
        },
{
    sign_format_of(to_lowercase(ft))
}

/// Resolves a format token, in any letter case, to an encryption format.
pub fn verify_encrypt_format(ft: &str) -> (r: Result<TextEncryptFormat, TextError>)
    ensures
        match r {
            Ok(format) => encrypt_format_named(lowercase(ft@)) == Some(format),
            Err(e) => encrypt_format_named(lowercase(ft@)).is_none() && e.is_unknown_algorithm(
                lowercase(ft@),
                "chacha20poly1305"@,
            ),
        },
{
    encrypt_format_of(to_lowercase(ft))
}

/// The name of a signing format resolves to that format.
pub proof fn lemma_sign_format_name_resolves(format: TextSignFormat)
    ensures
        sign_format_named(format.spec_name()) == Some(format),
{
    reveal_strlit("blake3");
    reveal_strlit("ed25519");
    assert("blake3"@.len() == 6);
    assert("ed25519"@.len() == 7);
}

/// The name of an encryption format resolves to that format.
pub proof fn lemma_encrypt_format_name_resolves(format: TextEncryptFormat)
    ensures
        encrypt_format_named(format.spec_name()) == Some(format),
{
}

/// A request to sign the input at `input` with the key at `key`.
#[derive(Debug)]
pub struct TextSignOpts {
    pub input: String,
    pub key: String,
    pub format: TextSignFormat,
}

/// A request to check the signature `sig`, given as URL-safe base64 without
/// padding, against the input at `input` with the key at `key`.
#[derive(Debug)]
pub struct TextVerifyOpts {
    pub input: String,
    pub key: String,
    pub format: TextSignFormat,
    pub sig: String,
}

/// A request for fresh key material, to be written into the directory
/// `output`.
#[derive(Debug)]
pub struct GenerateOpts {
    pub format: TextSignFormat,
    pub output: String,
}

/// A request to encrypt the input at `input` with the key at `key`.
#[derive(Debug)]
pub struct EncryptOpts {
    pub input: String,
    pub format: TextEncryptFormat,
    pub key: String,
}

/// A request to decrypt the envelope at `input` with the key at `key`.
#[derive(Debug)]
pub struct DecryptOpts {
    pub input: String,
    pub format: TextEncryptFormat,
    pub key: String,
}

/// A request of any kind.
#[derive(Debug)]
pub enum TextSubCommand {
    Sign(TextSignOpts),
    Verify(TextVerifyOpts),
    Generate(GenerateOpts),
    Encrypt(EncryptOpts),
    Decrypt(DecryptOpts),
}

/// What a request gives: the text to print, or the files to write.
#[derive(Debug)]
pub enum TextOutput {
    /// A signature, as URL-safe base64 without padding.
    Signature(String),
    /// Whether the signature matched.
    Verdict(bool),
    /// Key files: the name of each within the output directory, and its
    /// content.
    KeyFiles(Vec<(String, Vec<u8>)>),
    /// An envelope, as text.
    Envelope(String),
    /// A plaintext.
    Plaintext(Vec<u8>),
}

/// The names of the key files of a format, in the order of its keys.
pub open spec fn key_file_names(format: TextSignFormat) -> Seq<Seq<char>> {
    match format {
        TextSignFormat::Blake3 => seq!["blake3.txt"@],
        TextSignFormat::Ed25519 => seq!["ed25519.sk"@, "ed25519.pk"@],
    }
}

/// Whether `keys` are fresh key material of a format.
pub open spec fn is_generated(format: TextSignFormat, keys: Seq<Seq<u8>>) -> bool {
    match format {
        TextSignFormat::Blake3 => <Blake3 as KeyGenerator>::generated(keys),
        TextSignFormat::Ed25519 => <Ed25519Signer as KeyGenerator>::generated(keys),
    }
}

/// The names of a list of files.
pub open spec fn file_names(files: Seq<(String, Vec<u8>)>) -> Seq<Seq<char>> {
    files.map_values(|file: (String, Vec<u8>)| file.0@)
}

/// The contents of a list of files.
pub open spec fn file_contents(files: Seq<(String, Vec<u8>)>) -> Seq<Seq<u8>> {
    files.map_values(|file: (String, Vec<u8>)| file.1@)
}

impl TextSignOpts {
    /// What signing gives: the signature as text, or why there is none.
    pub open spec fn outcome(&self, input: Seq<u8>, key: Seq<u8>) -> Result<Seq<char>, TextError> {
        match text_signature(input, key, self.format) {
            Ok(signature) => Ok(base64_url(signature)),
            Err(e) => Err(e),
        }
    }

    /// Signs `input`, the content of the input, with `key`, the content of
    /// the key file. For a keyed digest, checking the text that comes back
    /// against `input` with the same key gives `true`.
    pub fn execute(&self, input: &[u8], key: &[u8]) -> (r: Result<String, TextError>)
        ensures
            match r {
                Ok(text) => self.outcome(input@, key@) == Ok::<Seq<char>, TextError>(text@),
                Err(e) => self.outcome(input@, key@) == Err::<Seq<char>, TextError>(e),
            },
            r is Ok && self.format == TextSignFormat::Blake3 ==> text_verdict(
                input@,
                key@,
                self.format,
                r->Ok_0@,
            ) == Ok::<bool, TextError>(true),
    {
        match process_text_sign(input, key, self.format) {
            Ok(signature) => Ok(encode_url(signature.as_slice())),
            Err(e) => Err(e),
        }
    }
}

impl TextVerifyOpts {
    /// Checks the signature of the request against `input`, the content of
    /// the input, with `key`, the content of the key file.
    pub fn execute(&self, input: &[u8], key: &[u8]) -> (r: Result<bool, TextError>)
        ensures
            r == text_verdict(input@, key@, self.format, self.sig@),
    {
        process_text_verify(input, key, self.format, self.sig.as_str())
    }
}

impl GenerateOpts {
    /// Whether `files` are what generation can give: the key files of the
    /// format, by name, holding fresh key material.
    pub open spec fn allows(&self, files: Seq<(String, Vec<u8>)>) -> bool {
        file_names(files) == key_file_names(self.format) && is_generated(
            self.format,
            file_contents(files),
        )
    }

    /// Makes fresh key material and names the file that each key goes to.
    /// Generation never fails.
    pub fn execute(&self) -> (r: Result<Vec<(String, Vec<u8>)>, TextError>)
        ensures
            r is Ok,
            self.allows(r->Ok_0@),
    {
        let mut keys = match process_key_generate(self.format) {
            Ok(keys) => keys,
            Err(e) => {
                return Err(e);
            },
        };
        let ghost made = key_views(keys@);
        let mut files: Vec<(String, Vec<u8>)> = Vec::new();
        match self.format {
            TextSignFormat::Blake3 => {
                let key = match keys.pop() {
                    Some(key) => key,
                    None => unreached(),
                };
                files.push((String::from_str("blake3.txt"), key));
                proof {
                    assert(file_names(files@) =~= key_file_names(self.format));
                    assert(file_contents(files@) =~= made);
                }
            },
            TextSignFormat::Ed25519 => {
                let pk = match keys.pop() {
                    Some(key) => key,
                    None => unreached(),
                };
                let sk = match keys.pop() {
                    Some(key) => key,
                    None => unreached(),
                };
                files.push((String::from_str("ed25519.sk"), sk));
                files.push((String::from_str("ed25519.pk"), pk));
                proof {
                    assert(file_names(files@) =~= key_file_names(self.format));
                    assert(file_contents(files@) =~= made);
                }
            },
        }
        Ok(files)
    }
}

impl EncryptOpts {
    /// Whether `r` is what encryption can give: an envelope of the input
    /// under the first 32 bytes of the key and some nonce of 12 bytes, as
    /// text, or the error of a key that is too short.
    pub open spec fn allows(&self, input: Seq<u8>, key: Seq<u8>, r: Result<String, TextError>) -> bool {
        match r {
            Ok(text) => {
                &&& key.len() >= 32
                &&& exists|nonce: Seq<u8>|
                    nonce.len() == 12 && encode_utf8(text@) == #[trigger] chacha20_envelope(
                        key.take(32),
                        nonce,
                        input,
                    )
                &&& text_plaintext(encode_utf8(text@), key, self.format) == Ok::<
                    Seq<u8>,
                    TextError,
                >(input)
            },
            Err(e) => key.len() < 32 && e == TextError::MalformedKey,
        }
    }

    /// Encrypts `input`, the content of the input, with `key`, the content
    /// of the key file. The envelope that comes back decrypts to `input`.
    pub fn execute(&self, input: &[u8], key: &[u8]) -> (r: Result<String, TextError>)
        requires
            input@.len() < PLAINTEXT_LIMIT,
        ensures
            self.allows(input@, key@, r),
    {
        let envelope = match process_text_encrypt(input, key, self.format) {
            Ok(envelope) => envelope,
            Err(e) => {
                return Err(e);
            },
        };
        proof {
            let nonce = choose|nonce: Seq<u8>|
                nonce.len() == 12 && envelope@ == #[trigger] chacha20_envelope(
                    key@.take(32),
                    nonce,
                    input@,
                );
            vstd::utf8::encode_utf8_valid_utf8(
                base64_url(
                    crate::record::record_text(
                        crate::primitives::chacha20poly1305_sealed(key@.take(32), nonce, input@),
                        nonce,
                    ),
                ),
            );
        }
        match utf8_text(envelope.as_slice()) {
            Some(text) => Ok(String::from_str(text)),
            None => unreached(),
        }
    }
}

impl DecryptOpts {
    /// Decrypts `input`, the envelope, with `key`, the content of the key
    /// file.
    pub fn execute(&self, input: &[u8], key: &[u8]) -> (r: Result<Vec<u8>, TextError>)
        ensures
            match r {
                Ok(plain) => text_plaintext(input@, key@, self.format) == Ok::<Seq<u8>, TextError>(
                    plain@,
                ),
                Err(e) => text_plaintext(input@, key@, self.format) == Err::<Seq<u8>, TextError>(e),
            },
    {
        process_text_decrypt(input, key, self.format)
    }
}

impl TextSubCommand {
    /// Whether `r` is what this request can give on `input` and `key`.
    pub open spec fn allows(
        &self,
        input: Seq<u8>,
        key: Seq<u8>,
        r: Result<TextOutput, TextError>,
    ) -> bool {
        match self {
            TextSubCommand::Sign(opts) => match r {
                Ok(TextOutput::Signature(text)) => opts.outcome(input, key) == Ok::<
                    Seq<char>,
                    TextError,
                >(text@),
                Ok(_) => false,
                Err(e) => opts.outcome(input, key) == Err::<Seq<char>, TextError>(e),
            },
            TextSubCommand::Verify(opts) => match r {
                Ok(TextOutput::Verdict(matched)) => text_verdict(input, key, opts.format, opts.sig@)
                    == Ok::<bool, TextError>(matched),
                Ok(_) => false,
                Err(e) => text_verdict(input, key, opts.format, opts.sig@) == Err::<
                    bool,
                    TextError,
                >(e),
            },
            TextSubCommand::Generate(opts) => match r {
                Ok(TextOutput::KeyFiles(files)) => opts.allows(files@),
                _ => false,
            },
            TextSubCommand::Encrypt(opts) => match r {
                Ok(TextOutput::Envelope(text)) => opts.allows(input, key, Ok(text)),
                Ok(_) => false,
                Err(e) => opts.allows(input, key, Err(e)),
            },
            TextSubCommand::Decrypt(opts) => match r {
                Ok(TextOutput::Plaintext(plain)) => text_plaintext(input, key, opts.format) == Ok::<
                    Seq<u8>,
                    TextError,
                >(plain@),
                Ok(_) => false,
                Err(e) => text_plaintext(input, key, opts.format) == Err::<Seq<u8>, TextError>(e),
            },
        }
    }

    /// Carries the request out on `input` and `key`, the contents of its
    /// input and of its key file. A request for fresh keys reads neither.
    pub fn execute(&self, input: &[u8], key: &[u8]) -> (r: Result<TextOutput, TextError>)
        requires
            self is Encrypt ==> input@.len() < PLAINTEXT_LIMIT,
        ensures
            self.allows(input@, key@, r),
    {
        match self {
            TextSubCommand::Sign(opts) => match opts.execute(input, key) {
                Ok(text) => Ok(TextOutput::Signature(text)),
                Err(e) => Err(e),
            },
            TextSubCommand::Verify(opts) => match opts.execute(input, key) {
                Ok(matched) => Ok(TextOutput::Verdict(matched)),
                Err(e) => Err(e),
            },
            TextSubCommand::Generate(opts) => match opts.execute() {
                Ok(files) => Ok(TextOutput::KeyFiles(files)),
                Err(e) => Err(e),
            },
            TextSubCommand::Encrypt(opts) => match opts.execute(input, key) {
                Ok(text) => Ok(TextOutput::Envelope(text)),
                Err(e) => Err(e),
            },
            TextSubCommand::Decrypt(opts) => match opts.execute(input, key) {
                Ok(plain) => Ok(TextOutput::Plaintext(plain)),
                Err(e) => Err(e),
            },
        }
    }
}

impl std::str::FromStr for TextSignFormat {
    type Err = TextError;

    /// Resolves a format token, in any letter case, to a signing format.
    fn from_str(format: &str) -> (r: Result<Self, Self::Err>)
        ensures
            match r {
                Ok(found) => sign_format_named(lowercase(format@)) == Some(found),
                Err(e) => sign_format_named(lowercase(format@)).is_none()
                    && e.is_unknown_algorithm(lowercase(format@), "blake3, ed25519"@),
            },
    {
        verify_format(format)
    }
}

impl std::str::FromStr for TextEncryptFormat {
    type Err = TextError;

    /// Resolves a format token, in any letter case, to an encryption format.
    fn from_str(format: &str) -> (r: Result<Self, Self::Err>)
        ensures
            match r {
                Ok(found) => encrypt_format_named(lowercase(format@)) == Some(found),
                Err(e) => encrypt_format_named(lowercase(format@)).is_none()
                    && e.is_unknown_algorithm(lowercase(format@), "chacha20poly1305"@),
            },
    {
        verify_encrypt_format(format)
    }
}

} // verus!
