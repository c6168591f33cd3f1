use rcli::process::csv_convert::pair_fields;

fn list(items: &[&str]) -> Vec<String> {
    items.iter().map(|item| item.to_string()).collect()
}

#[test]
fn every_header_is_joined_with_its_field() {
    assert_eq!(
        pair_fields(&list(&["Name", "Kit Number"]), &list(&["Ann", "7"])),
        vec![
            ("Name".to_string(), "Ann".to_string()),
            ("Kit Number".to_string(), "7".to_string())
        ]
    );
    assert_eq!(pair_fields(&list(&[]), &list(&[])), vec![]);
}

#[test]
fn what_has_no_partner_is_left_out() {
    assert_eq!(
        pair_fields(&list(&["a", "b", "c"]), &list(&["1"])),
        vec![("a".to_string(), "1".to_string())]
    );
    assert_eq!(
        pair_fields(&list(&["a"]), &list(&["1", "2"])),
        vec![("a".to_string(), "1".to_string())]
    );
    assert_eq!(pair_fields(&list(&["a"]), &list(&[])), vec![]);
}
