use rcli::cli::base64::{verify_base64_format, Base64Format};
use rcli::cli::csv::verify_format as verify_output_format;
use rcli::cli::csv::OutputFormat;
use rcli::cli::text::{
    encrypt_format_of, sign_format_of, verify_encrypt_format, verify_format, TextEncryptFormat,
    TextSignFormat,
};
use rcli::error::TextError;

#[test]
fn sign_formats_resolve_in_any_letter_case() {
    assert_eq!(verify_format("Blake3"), Ok(TextSignFormat::Blake3));
    assert_eq!(verify_format("blake3"), Ok(TextSignFormat::Blake3));
    assert_eq!(verify_format("BLAKE3"), Ok(TextSignFormat::Blake3));
    assert_eq!(verify_format("ed25519"), Ok(TextSignFormat::Ed25519));
    assert_eq!(verify_format("ED25519"), Ok(TextSignFormat::Ed25519));
    assert_eq!("Ed25519".parse(), Ok(TextSignFormat::Ed25519));
}

#[test]
fn an_unknown_sign_format_is_rejected_with_the_valid_ones() {
    let e = verify_format("sha1").unwrap_err();
    assert_eq!(
        e,
        TextError::UnknownAlgorithm {
            token: "sha1".into(),
            valid: "blake3, ed25519".into(),
        }
    );
    assert_eq!(
        e.message(),
        "Unsupported format \"sha1\", expected one of: blake3, ed25519"
    );
    assert_eq!(
        verify_format("SHA1"),
        Err(TextError::UnknownAlgorithm {
            token: "sha1".into(),
            valid: "blake3, ed25519".into(),
        })
    );
    assert!(verify_format("").is_err());
    assert!(verify_format("blake3 ").is_err());
    assert!(verify_format("chacha20poly1305").is_err());
}

#[test]
fn a_token_that_is_not_in_lower_case_is_no_name() {
    assert_eq!(sign_format_of("blake3".into()), Ok(TextSignFormat::Blake3));
    assert!(sign_format_of("Blake3".into()).is_err());
    assert_eq!(
        encrypt_format_of("chacha20poly1305".into()),
        Ok(TextEncryptFormat::ChaCha20Poly1305)
    );
    assert!(encrypt_format_of("ChaCha20Poly1305".into()).is_err());
}

#[test]
fn encrypt_formats_resolve_in_any_letter_case() {
    assert_eq!(
        verify_encrypt_format("chacha20poly1305"),
        Ok(TextEncryptFormat::ChaCha20Poly1305)
    );
    assert_eq!(
        verify_encrypt_format("ChaCha20Poly1305"),
        Ok(TextEncryptFormat::ChaCha20Poly1305)
    );
    assert_eq!(
        "CHACHA20POLY1305".parse(),
        Ok(TextEncryptFormat::ChaCha20Poly1305)
    );
    assert_eq!(
        verify_encrypt_format("aes"),
        Err(TextError::UnknownAlgorithm {
            token: "aes".into(),
            valid: "chacha20poly1305".into(),
        })
    );
    assert!(verify_encrypt_format("blake3").is_err());
}

#[test]
fn every_format_resolves_from_its_own_name() {
    for format in [TextSignFormat::Blake3, TextSignFormat::Ed25519] {
        assert_eq!(verify_format(format.name()), Ok(format));
    }
    assert_eq!(TextSignFormat::Blake3.name(), "blake3");
    assert_eq!(TextSignFormat::Ed25519.name(), "ed25519");
    assert_eq!(TextEncryptFormat::ChaCha20Poly1305.name(), "chacha20poly1305");
    assert_eq!(
        verify_encrypt_format(TextEncryptFormat::ChaCha20Poly1305.name()),
        Ok(TextEncryptFormat::ChaCha20Poly1305)
    );
    for format in [Base64Format::Standard, Base64Format::UrlSafe] {
        assert_eq!(verify_base64_format(format.name()), Ok(format));
    }
    for format in [OutputFormat::Json, OutputFormat::Yaml] {
        assert_eq!(verify_output_format(format.name()), Ok(format));
    }
}

#[test]
fn base64_and_output_formats_resolve() {
    assert_eq!(verify_base64_format("standard"), Ok(Base64Format::Standard));
    assert_eq!(verify_base64_format("UrlSafe"), Ok(Base64Format::UrlSafe));
    assert_eq!("URLSAFE".parse(), Ok(Base64Format::UrlSafe));
    assert_eq!(
        verify_base64_format("hex"),
        Err(TextError::UnknownAlgorithm {
            token: "hex".into(),
            valid: "standard, urlsafe".into(),
        })
    );
    assert_eq!(verify_output_format("json"), Ok(OutputFormat::Json));
    assert_eq!(verify_output_format("YAML"), Ok(OutputFormat::Yaml));
    assert_eq!("Json".parse(), Ok(OutputFormat::Json));
    assert_eq!(
        verify_output_format("toml"),
        Err(TextError::UnknownAlgorithm {
            token: "toml".into(),
            valid: "json, yaml".into(),
        })
    );
}

#[test]
fn lower_case_is_that_of_unicode() {
    // The Kelvin sign has the small letter k as its lower case.
    assert_eq!(verify_format("bla\u{212a}e3"), Ok(TextSignFormat::Blake3));
}

#[test]
fn every_error_has_its_message() {
    assert_eq!(
        TextError::MalformedKey.message(),
        "Malformed key: wrong length or invalid encoding"
    );
    assert_eq!(
        TextError::MalformedSignatureOrEnvelope.message(),
        "Malformed signature or envelope"
    );
    assert_eq!(
        TextError::AuthenticationFailure.message(),
        "Authentication failed: wrong key or altered ciphertext"
    );
}
