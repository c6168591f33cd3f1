use rcli::cli::text::{
    DecryptOpts, EncryptOpts, GenerateOpts, TextEncryptFormat, TextOutput, TextSignFormat,
    TextSignOpts, TextSubCommand, TextVerifyOpts,
};
use rcli::error::TextError;

fn sign(format: TextSignFormat) -> TextSignOpts {
    TextSignOpts {
        input: "-".into(),
        key: "key.txt".into(),
        format,
    }
}

fn verify(format: TextSignFormat, sig: &str) -> TextVerifyOpts {
    TextVerifyOpts {
        input: "-".into(),
        key: "key.txt".into(),
        format,
        sig: sig.into(),
    }
}

#[test]
fn a_signature_is_printed_as_url_safe_base64() {
    let text = sign(TextSignFormat::Blake3).execute(b"", &[1u8; 32]).unwrap();
    assert_eq!(text, "XcdsvUdOkbfoWgK8uimJInPr-T8gurBrLzUjE6UFDAU");
    assert_eq!(
        verify(TextSignFormat::Blake3, &text).execute(b"", &[1u8; 32]),
        Ok(true)
    );
    assert_eq!(
        verify(TextSignFormat::Blake3, &text).execute(b"x", &[1u8; 32]),
        Ok(false)
    );
    assert_eq!(
        sign(TextSignFormat::Blake3).execute(b"", &[1u8; 3]),
        Err(TextError::MalformedKey)
    );
}

#[test]
fn generated_keys_are_named_by_format() {
    let digest = GenerateOpts {
        format: TextSignFormat::Blake3,
        output: "out".into(),
    };
    let files = digest.execute().unwrap();
    assert_eq!(files.len(), 1);
    assert_eq!(files[0].0, "blake3.txt");
    assert_eq!(files[0].1.len(), 32);

    let pair = GenerateOpts {
        format: TextSignFormat::Ed25519,
        output: "out".into(),
    };
    let files = pair.execute().unwrap();
    assert_eq!(files.len(), 2);
    assert_eq!(files[0].0, "ed25519.sk");
    assert_eq!(files[1].0, "ed25519.pk");
    let text = sign(TextSignFormat::Ed25519)
        .execute(b"hello", &files[0].1)
        .unwrap();
    assert_eq!(
        verify(TextSignFormat::Ed25519, &text).execute(b"hello", &files[1].1),
        Ok(true)
    );
    assert_eq!(
        verify(TextSignFormat::Ed25519, &text).execute(b"hello!", &files[1].1),
        Ok(false)
    );
}

#[test]
fn an_envelope_is_printed_as_text_and_read_back() {
    let encrypt = EncryptOpts {
        input: "-".into(),
        format: TextEncryptFormat::ChaCha20Poly1305,
        key: "key.txt".into(),
    };
    let decrypt = DecryptOpts {
        input: "-".into(),
        format: TextEncryptFormat::ChaCha20Poly1305,
        key: "key.txt".into(),
    };
    let text = encrypt.execute(b"hello", &[7u8; 32]).unwrap();
    assert_eq!(decrypt.execute(text.as_bytes(), &[7u8; 32]), Ok(b"hello".to_vec()));
    assert_eq!(
        decrypt.execute(text.as_bytes(), &[8u8; 32]),
        Err(TextError::AuthenticationFailure)
    );
    assert_eq!(
        encrypt.execute(b"hello", b"short"),
        Err(TextError::MalformedKey)
    );
}

#[test]
fn a_request_gives_the_output_of_its_kind() {
    let key = [1u8; 32];
    let signed = TextSubCommand::Sign(sign(TextSignFormat::Blake3))
        .execute(b"hello", &key)
        .unwrap();
    let text = match signed {
        TextOutput::Signature(text) => text,
        other => panic!("{:?}", other),
    };
    match TextSubCommand::Verify(verify(TextSignFormat::Blake3, &text)).execute(b"hello", &key) {
        Ok(TextOutput::Verdict(matched)) => assert!(matched),
        other => panic!("{:?}", other),
    }
    let generate = TextSubCommand::Generate(GenerateOpts {
        format: TextSignFormat::Ed25519,
        output: ".".into(),
    });
    match generate.execute(b"", b"") {
        Ok(TextOutput::KeyFiles(files)) => assert_eq!(files.len(), 2),
        other => panic!("{:?}", other),
    }
    let encrypt = TextSubCommand::Encrypt(EncryptOpts {
        input: "-".into(),
        format: TextEncryptFormat::ChaCha20Poly1305,
        key: "key.txt".into(),
    });
    let envelope = match encrypt.execute(b"hello", &key) {
        Ok(TextOutput::Envelope(text)) => text,
        other => panic!("{:?}", other),
    };
    let decrypt = TextSubCommand::Decrypt(DecryptOpts {
        input: "-".into(),
        format: TextEncryptFormat::ChaCha20Poly1305,
        key: "key.txt".into(),
    });
    match decrypt.execute(envelope.as_bytes(), &key) {
        Ok(TextOutput::Plaintext(plain)) => assert_eq!(plain, b"hello"),
        other => panic!("{:?}", other),
    }
    assert!(matches!(
        decrypt.execute(b"hello", &key),
        Err(TextError::MalformedSignatureOrEnvelope)
    ));
    assert!(matches!(
        decrypt.execute(envelope.as_bytes(), b"short"),
        Err(TextError::MalformedKey)
    ));
}
