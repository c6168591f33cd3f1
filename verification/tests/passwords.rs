use rcli::cli::text::TextSignFormat;
use rcli::process::gen_pass::{process_genpass, LOWER, NUMBER, SYMBOL, UPPER};
use rcli::process::text::{process_key_generate, Blake3, KeyGenerator};

fn holds(password: &str, class: &[u8]) -> bool {
    password.bytes().any(|c| class.contains(&c))
}

#[test]
fn the_classes_are_the_unambiguous_characters() {
    assert_eq!(&UPPER, b"ABCDEFGHJKLMNPQRSTUVWXYZ");
    assert_eq!(&LOWER, b"abcdefghijkmnopqrstuvwxyz");
    assert_eq!(&NUMBER, b"123456789");
    assert_eq!(&SYMBOL, b"!@#$%^&*_");
}

#[test]
fn a_password_has_its_length_and_every_class() {
    for length in [4u8, 5, 16, 32, 255] {
        let password = process_genpass(length, true, true, true, true);
        assert_eq!(password.len(), length as usize);
        assert!(holds(&password, &UPPER), "{}", password);
        assert!(holds(&password, &LOWER), "{}", password);
        assert!(holds(&password, &NUMBER), "{}", password);
        assert!(holds(&password, &SYMBOL), "{}", password);
    }
}

#[test]
fn a_password_holds_no_class_that_was_not_asked_for() {
    for _ in 0..20 {
        let password = process_genpass(40, false, true, true, false);
        assert_eq!(password.len(), 40);
        assert!(password
            .bytes()
            .all(|c| LOWER.contains(&c) || NUMBER.contains(&c)));
        assert!(holds(&password, &LOWER));
        assert!(holds(&password, &NUMBER));
    }
    let digits = process_genpass(12, false, false, true, false);
    assert!(digits.bytes().all(|c| NUMBER.contains(&c)));
    assert_eq!(digits.len(), 12);
}

#[test]
fn the_shortest_password_is_one_character_of_each_class() {
    let password = process_genpass(4, true, true, true, true);
    assert_eq!(password.len(), 4);
    assert!(holds(&password, &UPPER));
    assert!(holds(&password, &LOWER));
    assert!(holds(&password, &NUMBER));
    assert!(holds(&password, &SYMBOL));
    assert_eq!(process_genpass(1, false, false, false, true).len(), 1);
    assert_eq!(process_genpass(0, false, false, false, false), "");
}

#[test]
fn a_digest_key_is_a_password_of_32_characters() {
    let keys = Blake3::generate().unwrap();
    assert_eq!(keys.len(), 1);
    assert_eq!(keys[0].len(), 32);
    let text = String::from_utf8(keys[0].clone()).unwrap();
    assert!(holds(&text, &UPPER));
    assert!(holds(&text, &LOWER));
    assert!(holds(&text, &NUMBER));
    assert!(holds(&text, &SYMBOL));
}

#[test]
fn two_digest_keys_differ() {
    let one = process_key_generate(TextSignFormat::Blake3).unwrap();
    let two = process_key_generate(TextSignFormat::Blake3).unwrap();
    assert_eq!(one.len(), 1);
    assert_eq!(two.len(), 1);
    assert_eq!(one[0].len(), 32);
    assert_eq!(two[0].len(), 32);
    assert_ne!(one[0], two[0]);
}
