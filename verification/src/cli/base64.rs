//! The two dialects of base64, by name, and the requests to encode and to
//! decode.

use vstd::prelude::*;
use vstd::string::StringExecFns;
use vstd::utf8::{decode_utf8, valid_utf8};
use crate::codec::{base64_data, base64_text, lowercase, to_lowercase, trimmed, utf8_text};
use crate::error::TextError;
use crate::process::b64::{is_url_safe, process_decode, process_encode};

verus! {

/// A dialect of base64.
#[derive(Debug, Clone, Copy, PartialEq, Eq, Structural)]
pub enum Base64Format {
    /// The standard alphabet, padded with `=`.
    Standard,
    /// The alphabet that is safe in URLs and file names, without padding.
    UrlSafe,
}

impl Base64Format {
    /// The token that names this dialect.
    pub open spec fn spec_name(self) -> Seq<char> {
        match self {
            Base64Format::Standard => "standard"@,
            Base64Format::UrlSafe => "urlsafe"@,
        }
    }

    /// The token that names this dialect.
    pub fn name(self) -> (token: &'static str)
        ensures
            token@ == self.spec_name(),
    {
        match self {
            Base64Format::Standard => "standard",
            Base64Format::UrlSafe => "urlsafe",
        }
    }
}

/// The dialect that a token in lower case names.
pub open spec fn base64_format_named(token: Seq<char>) -> Option<Base64Format> {
    if token == "standard"@ {
        Some(Base64Format::Standard)
    } else if token == "urlsafe"@ {
        Some(Base64Format::UrlSafe)
    } else {
        None
    }
}

/// Resolves a token that is already in lower case to a dialect.
pub fn base64_format_of(token: String) -> (r: Result<Base64Format, TextError>)
    ensures
        match r {
            Ok(format) => base64_format_named(token@) == Some(format),
            Err(e) => base64_format_named(token@).is_none() && e.is_unknown_algorithm(
                token@,
                "standard, urlsafe"@,
            ),
        },
{
    if token == String::from_str("standard") {
        Ok(Base64Format::Standard)
    } else if token == String::from_str("urlsafe") {
        Ok(Base64Format::UrlSafe)
    } else {
        Err(TextError::UnknownAlgorithm { token, valid: String::from_str("standard, urlsafe") })
    }
}

/// Resolves a format token, in any letter case, to a dialect of base64.
pub fn verify_base64_format(input: &str) -> (r: Result<Base64Format, TextError>)
    ensures
        match r {
            Ok(format) => base64_format_named(lowercase(input@)) == Some(format),
            Err(e) => base64_format_named(lowercase(input@)).is_none() && e.is_unknown_algorithm(
                lowercase(input@),
                "standard, urlsafe"@,
            ),
        },
{
    base64_format_of(to_lowercase(input))
}

/// The name of a dialect resolves to that dialect.
pub proof fn lemma_base64_format_name_resolves(format: Base64Format)
    ensures
        base64_format_named(format.spec_name()) == Some(format),
{
    reveal_strlit("standard");
    reveal_strlit("urlsafe");
    assert("standard"@.len() == 8);
    assert("urlsafe"@.len() == 7);
}

/// A request to encode the input at `input`.
#[derive(Debug)]
pub struct Base64EncodeOpts {
    pub input: String,
    pub format: Base64Format,
}

/// A request to decode the text at `input`.
#[derive(Debug)]
pub struct Base64DecodeOpts {
    pub input: String,
    pub format: Base64Format,
}

/// A request of either kind.
#[derive(Debug)]
pub enum Base64SubCommand {
    Encode(Base64EncodeOpts),
    Decode(Base64DecodeOpts),
}

/// What a request gives.
#[derive(Debug)]
pub enum Base64Output {
    /// The base64 text of the input.
    Encoded(String),
    /// The bytes that the input stood for.
    Decoded(Vec<u8>),
}

impl Base64EncodeOpts {
    /// Encodes `input`, the content of the input.
    pub fn execute(&self, input: &[u8]) -> (text: String)
        ensures
            text@ == base64_text(is_url_safe(self.format), input@),
            base64_data(is_url_safe(self.format), text@) == Some(input@),
    {
        process_encode(input, self.format)
    }
}

impl Base64DecodeOpts {
    /// Decodes `input`, the content of the input as text.
    pub fn execute(&self, input: &str) -> (r: Result<Vec<u8>, TextError>)
        ensures
            match r {
                Ok(data) => base64_data(is_url_safe(self.format), trimmed(input@)) == Some(data@),
                Err(e) => base64_data(is_url_safe(self.format), trimmed(input@)).is_none() && e
                    == TextError::MalformedSignatureOrEnvelope,
            },
    {
        process_decode(input, self.format)
    }
}

/// The bytes that `input` stands for: those of its text, without the
/// white space at its ends, in the dialect given; or `None` where `input`
/// is no text or the text no base64.
pub open spec fn decoded_input(input: Seq<u8>, format: Base64Format) -> Option<Seq<u8>> {
    if valid_utf8(input) {
        base64_data(is_url_safe(format), trimmed(decode_utf8(input)))
    } else {
        None
    }
}

impl Base64SubCommand {
    /// Carries the request out on `input`, the content of its input.
    pub fn execute(&self, input: &[u8]) -> (r: Result<Base64Output, TextError>)
        ensures
            match self {
                Base64SubCommand::Encode(opts) => r matches Ok(Base64Output::Encoded(text))
                    && text@ == base64_text(is_url_safe(opts.format), input@),
                Base64SubCommand::Decode(opts) => match r {
                    Ok(Base64Output::Decoded(data)) => decoded_input(input@, opts.format) == Some(
                        data@,
                    ),
                    Ok(_) => false,
                    Err(e) => decoded_input(input@, opts.format).is_none() && e
                        == TextError::MalformedSignatureOrEnvelope,
                },
            },
    {
        match self {
            Base64SubCommand::Encode(opts) => Ok(Base64Output::Encoded(opts.execute(input))),
            Base64SubCommand::Decode(opts) => {
                let text = match utf8_text(input) {
                    Some(text) => text,
                    None => {
                        return Err(TextError::MalformedSignatureOrEnvelope);
                    },
                };
                proof {
                    vstd::utf8::encode_utf8_decode_utf8(text@);
                }
                match opts.execute(text) {
                    Ok(data) => Ok(Base64Output::Decoded(data)),
                    Err(e) => Err(e),
                }
            },
        }
    }
}

impl std::str::FromStr for Base64Format {
    type Err = TextError;

    /// Resolves a format token, in any letter case, to a dialect of base64.
    fn from_str(format: &str) -> (r: Result<Self, Self::Err>)
        ensures
            match r {
                Ok(found) => base64_format_named(lowercase(format@)) == Some(found),
                Err(e) => base64_format_named(lowercase(format@)).is_none()
                    && e.is_unknown_algorithm(lowercase(format@), "standard, urlsafe"@),
            },
    {
        verify_base64_format(format)
    }
}

} // verus!
