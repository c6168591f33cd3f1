//! Bindings to the text functions: base64, UTF-8 and letter case.
//!
//! Nothing in this file is proved. Each function makes one call and states
//! what that call returns.

use vstd::prelude::*;
use vstd::string::StringSliceAdditionalSpecFns;
use vstd::utf8::valid_utf8;
use base64::engine::general_purpose::{STANDARD, URL_SAFE_NO_PAD};
use base64::Engine;

verus! {

/// The base64 text of `data`: in the URL-safe alphabet and without padding
/// where `url_safe` is set, in the standard alphabet and padded where not.
pub uninterp spec fn base64_text(url_safe: bool, data: Seq<u8>) -> Seq<char>;

/// The bytes that `text` stands for in the base64 that `url_safe` selects,
/// or `None` where `text` is no such encoding.
pub uninterp spec fn base64_data(url_safe: bool, text: Seq<char>) -> Option<Seq<u8>>;

/// `text` without the white space at its two ends.
pub uninterp spec fn trimmed(text: Seq<char>) -> Seq<char>;

/// `text` in lower case, as Unicode defines it.
pub uninterp spec fn lowercase(text: Seq<char>) -> Seq<char>;

/// The base64 text of `data` in the URL-safe alphabet, without padding.
pub open spec fn base64_url(data: Seq<u8>) -> Seq<char> {
    base64_text(true, data)
}

/// The bytes that `text` stands for in unpadded URL-safe base64.
pub open spec fn base64_url_decoded(text: Seq<char>) -> Option<Seq<u8>> {
    base64_data(true, text)
}

/// Calls `Engine::encode` of `base64` on the `URL_SAFE_NO_PAD` engine. The
/// text depends on the data alone, and decoding it gives the data back.
#[verifier::external_body]
pub(crate) fn encode_url(data: &[u8]) -> (text: String)
    ensures
        text@ == base64_text(true, data@),
        base64_data(true, text@) == Some(data@),
{
    URL_SAFE_NO_PAD.encode(data)
}

/// Calls `Engine::decode` of `base64` on the `URL_SAFE_NO_PAD` engine. The
/// outcome depends on the text alone.
#[verifier::external_body]
pub(crate) fn decode_url(text: &str) -> (data: Option<Vec<u8>>)
    ensures
        match data {
            Some(d) => base64_data(true, text@) == Some(d@),
            None => base64_data(true, text@).is_none(),
        },
{
    URL_SAFE_NO_PAD.decode(text).ok()
}

/// Calls `Engine::encode` of `base64` on the `STANDARD` engine. The text
/// depends on the data alone, and decoding it gives the data back.
#[verifier::external_body]
pub(crate) fn encode_standard(data: &[u8]) -> (text: String)
    ensures
        text@ == base64_text(false, data@),
        base64_data(false, text@) == Some(data@),
{
    STANDARD.encode(data)
}

/// Calls `Engine::decode` of `base64` on the `STANDARD` engine. The outcome
/// depends on the text alone.
#[verifier::external_body]
pub(crate) fn decode_standard(text: &str) -> (data: Option<Vec<u8>>)
    ensures
        match data {
            Some(d) => base64_data(false, text@) == Some(d@),
            None => base64_data(false, text@).is_none(),
        },
{
    STANDARD.decode(text).ok()
}

/// Calls `str::to_lowercase`. The result depends on the text alone.
#[verifier::external_body]
pub(crate) fn to_lowercase(text: &str) -> (lower: String)
    ensures
        lower@ == lowercase(text@),
{
    text.to_lowercase()
}

/// Calls `str::trim`. The result depends on the text alone.
#[verifier::external_body]
pub(crate) fn trim(text: &str) -> (inner: &str)
    ensures
        inner@ == trimmed(text@),
{
    text.trim()
}

/// Calls `std::str::from_utf8`, which succeeds exactly on valid UTF-8 and
/// then gives the text that these bytes encode.
#[verifier::external_body]
pub(crate) fn utf8_text(bytes: &[u8]) -> (text: Option<&str>)
    ensures
        text.is_some() <==> valid_utf8(bytes@),
        text matches Some(t) ==> t.spec_bytes() == bytes@,
{
    std::str::from_utf8(bytes).ok()
}

} // verus!
