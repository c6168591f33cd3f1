//! Base64 in either dialect.

use vstd::prelude::*;
use crate::cli::base64::Base64Format;
use crate::codec::{
    base64_data, base64_text, decode_standard, decode_url, encode_standard, encode_url, trim,
    trimmed,
};
use crate::error::TextError;

verus! {

/// Whether a dialect is the URL-safe one.
pub open spec fn is_url_safe(format: Base64Format) -> bool {
    format == Base64Format::UrlSafe
}

/// Encodes `input` in the dialect given. Decoding the text in the same
/// dialect gives `input` back.
pub fn process_encode(input: &[u8], format: Base64Format) -> (text: String)
    ensures
        text@ == base64_text(is_url_safe(format), input@),
        base64_data(is_url_safe(format), text@) == Some(input@),
{
    match format {
        Base64Format::Standard => encode_standard(input),
        Base64Format::UrlSafe => encode_url(input),
    }
}

/// Decodes `input`, without the white space at its ends, in the dialect
/// given.
pub fn process_decode(input: &str, format: Base64Format) -> (r: Result<Vec<u8>, TextError>)
    ensures
        match r {
            Ok(data) => base64_data(is_url_safe(format), trimmed(input@)) == Some(data@),
            Err(e) => base64_data(is_url_safe(format), trimmed(input@)).is_none() && e
                == TextError::MalformedSignatureOrEnvelope,
        },
{
    let text = trim(input);
    let decoded = match format {
        Base64Format::Standard => decode_standard(text),
        Base64Format::UrlSafe => decode_url(text),
    };
    match decoded {
        Some(data) => Ok(data),
        None => Err(TextError::MalformedSignatureOrEnvelope),
    }
}

} // verus!
