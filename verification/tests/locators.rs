use rcli::cli::{is_stdin, verify_file, verify_input_file, verify_path};
use rcli::utils::{resolve_input, InputSource};

#[test]
fn test_verify_input_file() {
    assert_eq!(verify_file("-", false), Ok("-".into()));
    assert_eq!(verify_file("Cargo.toml", true), Ok("Cargo.toml".into()));
    assert_eq!(
        verify_file("not-exists", false),
        Err("File does not exists.".into())
    );
}

#[test]
fn stdin_is_accepted_whatever_is_on_disk() {
    assert!(is_stdin("-"));
    assert!(!is_stdin("--"));
    assert!(!is_stdin(""));
    assert_eq!(verify_file("-", true), Ok("-".into()));
}

#[test]
fn an_output_path_has_to_be_an_existing_directory() {
    assert_eq!(verify_path("out", true, true), Ok("out".into()));
    assert_eq!(
        verify_path("out", true, false),
        Err("File does not exists.".into())
    );
    assert_eq!(
        verify_path("out", false, false),
        Err("File does not exists.".into())
    );
    assert_eq!(
        verify_path("-", false, false),
        Err("File does not exists.".into())
    );
}

#[test]
fn an_input_file_has_to_exist() {
    assert_eq!(verify_input_file("in.csv", true), Ok("in.csv".into()));
    assert_eq!(
        verify_input_file("in.csv", false),
        Err("File does not exists.".into())
    );
    assert_eq!(
        verify_input_file("-", false),
        Err("File does not exists.".into())
    );
}

#[test]
fn a_locator_resolves_to_stdin_a_file_or_itself() {
    assert_eq!(resolve_input("-", false), InputSource::Stdin);
    assert_eq!(resolve_input("-", true), InputSource::Stdin);
    assert_eq!(
        resolve_input("notes.txt", true),
        InputSource::File("notes.txt".into())
    );
    assert_eq!(
        resolve_input("notes.txt", false),
        InputSource::Literal(b"notes.txt".to_vec())
    );
    assert_eq!(resolve_input("", false), InputSource::Literal(Vec::new()));
    assert_eq!(
        resolve_input("h\u{e9}", false),
        InputSource::Literal(vec![0x68, 0xc3, 0xa9])
    );
}
