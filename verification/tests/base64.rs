use rcli::cli::base64::{
    Base64DecodeOpts, Base64EncodeOpts, Base64Format, Base64Output, Base64SubCommand,
};
use rcli::error::TextError;
use rcli::process::b64::{process_decode, process_encode};

#[test]
fn each_dialect_has_its_alphabet_and_padding() {
    assert_eq!(process_encode(b"hello", Base64Format::Standard), "aGVsbG8=");
    assert_eq!(process_encode(b"hello", Base64Format::UrlSafe), "aGVsbG8");
    assert_eq!(process_encode(&[0xfb, 0xff], Base64Format::Standard), "+/8=");
    assert_eq!(process_encode(&[0xfb, 0xff], Base64Format::UrlSafe), "-_8");
    assert_eq!(process_encode(b"", Base64Format::Standard), "");
    assert_eq!(process_encode(b"", Base64Format::UrlSafe), "");
}

#[test]
fn decoding_undoes_encoding() {
    let data: Vec<u8> = (0..=255).collect();
    for format in [Base64Format::Standard, Base64Format::UrlSafe] {
        for cut in [0, 1, 2, 3, 4, 100, 256] {
            let text = process_encode(&data[..cut], format);
            assert_eq!(process_decode(&text, format), Ok(data[..cut].to_vec()));
        }
    }
}

#[test]
fn white_space_at_the_ends_is_dropped() {
    assert_eq!(
        process_decode("aGVsbG8=\n", Base64Format::Standard),
        Ok(b"hello".to_vec())
    );
    assert_eq!(
        process_decode("  aGVsbG8\r\n", Base64Format::UrlSafe),
        Ok(b"hello".to_vec())
    );
    assert_eq!(
        process_decode("aGV sbG8=", Base64Format::Standard),
        Err(TextError::MalformedSignatureOrEnvelope)
    );
}

#[test]
fn the_dialects_do_not_read_each_other() {
    assert_eq!(
        process_decode("aGVsbG8", Base64Format::Standard),
        Err(TextError::MalformedSignatureOrEnvelope)
    );
    assert_eq!(
        process_decode("aGVsbG8=", Base64Format::UrlSafe),
        Err(TextError::MalformedSignatureOrEnvelope)
    );
    assert_eq!(
        process_decode("+/8=", Base64Format::UrlSafe),
        Err(TextError::MalformedSignatureOrEnvelope)
    );
    assert_eq!(
        process_decode("-_8", Base64Format::Standard),
        Err(TextError::MalformedSignatureOrEnvelope)
    );
}

#[test]
fn requests_are_carried_out() {
    let encode = Base64EncodeOpts {
        input: "-".into(),
        format: Base64Format::UrlSafe,
    };
    assert_eq!(encode.execute(b"hello"), "aGVsbG8");
    let decode = Base64DecodeOpts {
        input: "-".into(),
        format: Base64Format::Standard,
    };
    assert_eq!(decode.execute("aGVsbG8=\n"), Ok(b"hello".to_vec()));
    match Base64SubCommand::Encode(encode).execute(&[0xfb, 0xff]) {
        Ok(Base64Output::Encoded(text)) => assert_eq!(text, "-_8"),
        other => panic!("{:?}", other),
    }
    let decode = Base64SubCommand::Decode(decode);
    match decode.execute(b"aGVsbG8=") {
        Ok(Base64Output::Decoded(data)) => assert_eq!(data, b"hello"),
        other => panic!("{:?}", other),
    }
    assert!(matches!(
        decode.execute(&[0xff, 0xfe]),
        Err(TextError::MalformedSignatureOrEnvelope)
    ));
    assert!(matches!(
        decode.execute(b"a"),
        Err(TextError::MalformedSignatureOrEnvelope)
    ));
}
