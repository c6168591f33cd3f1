use rcli::cli::base64::Base64Format;
use rcli::cli::text::TextSignFormat;
use rcli::error::TextError;
use rcli::process::b64::process_encode;
use rcli::process::text::{
    process_key_generate, process_text_sign, process_text_verify, Blake3, Ed25519Signer,
    Ed25519Verifier, KeyGenerator, KeyLoader, TextSign, TextVerify,
};

const SECRET: [u8; 32] = [
    0x9d, 0x61, 0xb1, 0x9d, 0xef, 0xfd, 0x5a, 0x60, 0xba, 0x84, 0x4a, 0xf4, 0x92, 0xec, 0x2c, 0xc4,
    0x44, 0x49, 0xc5, 0x69, 0x7b, 0x32, 0x69, 0x19, 0x70, 0x3b, 0xac, 0x03, 0x1c, 0xae, 0x7f, 0x60,
];

const PUBLIC: [u8; 32] = [
    0xd7, 0x5a, 0x98, 0x01, 0x82, 0xb1, 0x0a, 0xb7, 0xd5, 0x4b, 0xfe, 0xd3, 0xc9, 0x64, 0x07, 0x3a,
    0x0e, 0xe1, 0x72, 0xf3, 0xda, 0xa6, 0x23, 0x25, 0xaf, 0x02, 0x1a, 0x68, 0xf7, 0x07, 0x51, 0x1a,
];

const SIGNATURE_OF_EMPTY: [u8; 64] = [
    0xe5, 0x56, 0x43, 0x00, 0xc3, 0x60, 0xac, 0x72, 0x90, 0x86, 0xe2, 0xcc, 0x80, 0x6e, 0x82, 0x8a,
    0x84, 0x87, 0x7f, 0x1e, 0xb8, 0xe5, 0xd9, 0x74, 0xd8, 0x73, 0xe0, 0x65, 0x22, 0x49, 0x01, 0x55,
    0x5f, 0xb8, 0x82, 0x15, 0x90, 0xa3, 0x3b, 0xac, 0xc6, 0x1e, 0x39, 0x70, 0x1c, 0xf9, 0xb4, 0x6b,
    0xd2, 0x5b, 0xf5, 0xf0, 0x59, 0x5b, 0xbe, 0x24, 0x65, 0x51, 0x41, 0x43, 0x8e, 0x7a, 0x10, 0x0b,
];

const TAG_OF_EMPTY: [u8; 32] = [
    0x5d, 0xc7, 0x6c, 0xbd, 0x47, 0x4e, 0x91, 0xb7, 0xe8, 0x5a, 0x02, 0xbc, 0xba, 0x29, 0x89, 0x22,
    0x73, 0xeb, 0xf9, 0x3f, 0x20, 0xba, 0xb0, 0x6b, 0x2f, 0x35, 0x23, 0x13, 0xa5, 0x05, 0x0c, 0x05,
];

fn text_of(signature: &[u8]) -> String {
    process_encode(signature, Base64Format::UrlSafe)
}

#[test]
fn the_digest_of_the_empty_input_is_fixed() {
    let key = [1u8; 32];
    let tag = process_text_sign(b"", &key, TextSignFormat::Blake3).unwrap();
    assert_eq!(tag, TAG_OF_EMPTY);
    assert_eq!(Blake3::new(key).sign(b"").unwrap(), TAG_OF_EMPTY);
    assert_eq!(Blake3::try_new(&key).unwrap().sign(b"").unwrap(), TAG_OF_EMPTY);
}

#[test]
fn a_digest_depends_on_key_and_input() {
    let tag = Blake3::new([1u8; 32]).sign(b"hello").unwrap();
    assert_eq!(tag.len(), 32);
    assert_ne!(tag, TAG_OF_EMPTY);
    assert_ne!(tag, b"hello");
    assert_ne!(Blake3::new([2u8; 32]).sign(b"").unwrap(), TAG_OF_EMPTY);
}

#[test]
fn a_digest_verifies() {
    let inputs: [&[u8]; 4] = [b"", b"a", b"hello world", &[0u8; 5000]];
    let key = b"0123456789abcdef0123456789abcdef";
    for input in inputs {
        let tag = process_text_sign(input, key, TextSignFormat::Blake3).unwrap();
        assert_eq!(
            process_text_verify(input, key, TextSignFormat::Blake3, &text_of(&tag)),
            Ok(true)
        );
        let signer = Blake3::load(key).unwrap();
        assert_eq!(signer.verify(input, &signer.sign(input).unwrap()), Ok(true));
    }
}

#[test]
fn a_digest_that_does_not_match_is_false_not_an_error() {
    let key = [1u8; 32];
    let signer = Blake3::new(key);
    let mut tag = signer.sign(b"hello").unwrap();
    assert_eq!(signer.verify(b"hello!", &tag), Ok(false));
    assert_eq!(Blake3::new([2u8; 32]).verify(b"hello", &tag), Ok(false));
    assert_eq!(signer.verify(b"hello", &tag[..31]), Ok(false));
    assert_eq!(signer.verify(b"hello", b""), Ok(false));
    tag[0] ^= 1;
    assert_eq!(signer.verify(b"hello", &tag), Ok(false));
    assert_eq!(
        process_text_verify(b"hello", &key, TextSignFormat::Blake3, &text_of(&tag)),
        Ok(false)
    );
}

#[test]
fn a_digest_key_is_the_first_32_bytes() {
    let mut long = [1u8; 40];
    long[32] = 9;
    assert_eq!(
        process_text_sign(b"", &long, TextSignFormat::Blake3).unwrap(),
        TAG_OF_EMPTY
    );
    assert_eq!(Blake3::load(&long).unwrap().sign(b"").unwrap(), TAG_OF_EMPTY);
}

#[test]
fn a_key_that_is_too_short_is_malformed() {
    assert!(matches!(Blake3::try_new(&[1u8; 31]), Err(TextError::MalformedKey)));
    assert!(matches!(Blake3::load(b""), Err(TextError::MalformedKey)));
    assert_eq!(
        process_text_sign(b"hello", &[1u8; 31], TextSignFormat::Blake3),
        Err(TextError::MalformedKey)
    );
    assert_eq!(
        process_text_verify(b"hello", &[1u8; 31], TextSignFormat::Blake3, "AAAA"),
        Err(TextError::MalformedKey)
    );
    assert!(matches!(Ed25519Signer::try_new(&[1u8; 31]), Err(TextError::MalformedKey)));
    assert!(matches!(Ed25519Verifier::try_new(&PUBLIC[..31]), Err(TextError::MalformedKey)));
    assert_eq!(
        process_text_sign(b"hello", &SECRET[..31], TextSignFormat::Ed25519),
        Err(TextError::MalformedKey)
    );
}

#[test]
fn a_signing_key_has_exactly_32_bytes() {
    assert!(matches!(Ed25519Signer::try_new(&[1u8; 33]), Err(TextError::MalformedKey)));
    assert!(matches!(Ed25519Signer::load(&[1u8; 64]), Err(TextError::MalformedKey)));
    assert!(matches!(Ed25519Verifier::try_new(&[1u8; 33]), Err(TextError::MalformedKey)));
    assert!(Ed25519Signer::try_new(&SECRET).is_ok());
    assert!(Ed25519Verifier::try_new(&PUBLIC).is_ok());
    assert!(Ed25519Verifier::load(&PUBLIC).is_ok());
}

#[test]
fn bytes_that_encode_no_point_are_no_public_key() {
    let mut bytes = [0u8; 32];
    bytes[0] = 2;
    assert!(matches!(Ed25519Verifier::try_new(&bytes), Err(TextError::MalformedKey)));
    let sig = text_of(&SIGNATURE_OF_EMPTY);
    assert_eq!(
        process_text_verify(b"", &bytes, TextSignFormat::Ed25519, &sig),
        Err(TextError::MalformedKey)
    );
}

#[test]
fn the_signature_of_the_empty_input_is_the_known_one() {
    let signature = process_text_sign(b"", &SECRET, TextSignFormat::Ed25519).unwrap();
    assert_eq!(signature, SIGNATURE_OF_EMPTY);
    assert_eq!(
        Ed25519Signer::new(SECRET).sign(b"").unwrap(),
        SIGNATURE_OF_EMPTY
    );
    assert_eq!(
        Ed25519Verifier::try_new(&PUBLIC).unwrap().verify(b"", &SIGNATURE_OF_EMPTY),
        Ok(true)
    );
}

#[test]
fn a_signature_verifies_under_its_public_key_only() {
    let keys = process_key_generate(TextSignFormat::Ed25519).unwrap();
    let other = Ed25519Signer::generate().unwrap();
    let inputs: [&[u8]; 3] = [b"", b"hello", &[7u8; 3000]];
    for input in inputs {
        let signature = process_text_sign(input, &keys[0], TextSignFormat::Ed25519).unwrap();
        assert_eq!(signature.len(), 64);
        let sig = text_of(&signature);
        assert_eq!(
            process_text_verify(input, &keys[1], TextSignFormat::Ed25519, &sig),
            Ok(true)
        );
        assert_eq!(
            process_text_verify(input, &other[1], TextSignFormat::Ed25519, &sig),
            Ok(false)
        );
        assert_eq!(
            process_text_verify(input, &PUBLIC, TextSignFormat::Ed25519, &sig),
            Ok(false)
        );
    }
}

#[test]
fn a_signature_that_does_not_match_is_false_not_an_error() {
    let verifier = Ed25519Verifier::try_new(&PUBLIC).unwrap();
    assert_eq!(verifier.verify(b"x", &SIGNATURE_OF_EMPTY), Ok(false));
    let mut altered = SIGNATURE_OF_EMPTY;
    altered[10] ^= 4;
    assert_eq!(verifier.verify(b"", &altered), Ok(false));
    assert_eq!(verifier.verify(b"", &[0u8; 64]), Ok(false));
    assert_eq!(verifier.verify(b"", &[0xffu8; 64]), Ok(false));
}

#[test]
fn a_signature_of_impossible_length_is_malformed() {
    let verifier = Ed25519Verifier::try_new(&PUBLIC).unwrap();
    assert_eq!(
        verifier.verify(b"", &SIGNATURE_OF_EMPTY[..63]),
        Err(TextError::MalformedSignatureOrEnvelope)
    );
    assert_eq!(
        verifier.verify(b"", b""),
        Err(TextError::MalformedSignatureOrEnvelope)
    );
    let mut long = SIGNATURE_OF_EMPTY.to_vec();
    long.push(0);
    assert_eq!(
        process_text_verify(b"", &PUBLIC, TextSignFormat::Ed25519, &text_of(&long)),
        Err(TextError::MalformedSignatureOrEnvelope)
    );
}

#[test]
fn a_signature_text_that_is_no_base64_is_malformed() {
    for sig in ["a", "!!!!", "AAA=", "AA AA", "\u{e9}"] {
        assert_eq!(
            process_text_verify(b"", &[1u8; 32], TextSignFormat::Blake3, sig),
            Err(TextError::MalformedSignatureOrEnvelope)
        );
        assert_eq!(
            process_text_verify(b"", &PUBLIC, TextSignFormat::Ed25519, sig),
            Err(TextError::MalformedSignatureOrEnvelope)
        );
    }
    // The text is looked at before the key.
    assert_eq!(
        process_text_verify(b"", b"short", TextSignFormat::Blake3, "!"),
        Err(TextError::MalformedSignatureOrEnvelope)
    );
}

#[test]
fn a_generated_key_pair_is_private_then_public() {
    let keys = Ed25519Signer::generate().unwrap();
    assert_eq!(keys.len(), 2);
    assert_eq!(keys[0].len(), 32);
    assert_eq!(keys[1].len(), 32);
    assert_ne!(keys[0], keys[1]);
    assert!(Ed25519Signer::load(&keys[0]).is_ok());
    assert!(Ed25519Verifier::load(&keys[1]).is_ok());
    let again = process_key_generate(TextSignFormat::Ed25519).unwrap();
    assert_ne!(keys[0], again[0]);
    assert_ne!(keys[1], again[1]);
}
