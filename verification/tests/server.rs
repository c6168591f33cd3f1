use rcli::process::http_serve::{
    content_reply, entry_name, file_step, listing_reply, not_found_reply, FileStep,
};

#[test]
fn what_is_on_disk_decides_the_step() {
    assert_eq!(file_step(false, false), FileStep::NotFound);
    assert_eq!(file_step(false, true), FileStep::NotFound);
    assert_eq!(file_step(true, false), FileStep::ReadFile);
    assert_eq!(file_step(true, true), FileStep::ListDirectory);
}

#[test]
fn a_missing_file_is_answered_with_404() {
    assert_eq!(
        not_found_reply("./Cargo.lock"),
        (404, "File ./Cargo.lock not found".to_string())
    );
}

#[test]
fn a_file_is_answered_with_its_content_or_the_failure() {
    assert_eq!(
        content_reply(Ok("[package]".to_string())),
        (200, "[package]".to_string())
    );
    assert_eq!(
        content_reply(Err("stream did not contain valid UTF-8".to_string())),
        (500, "stream did not contain valid UTF-8".to_string())
    );
}

#[test]
fn a_directory_is_listed_with_a_slash() {
    assert_eq!(entry_name("src", true), "src/");
    assert_eq!(entry_name("Cargo.toml", false), "Cargo.toml");
}

#[test]
fn a_listing_links_every_entry() {
    let entries = vec!["lib.rs".to_string(), "cli/".to_string()];
    assert_eq!(
        listing_reply("src", &entries),
        (
            200,
            "<html><body><ul><li><a href=\"/src/lib.rs\">lib.rs</a></li>\n<li><a href=\"/src/cli/\">cli/</a></li></ul></body></html>"
                .to_string()
        )
    );
    assert_eq!(
        listing_reply("empty", &Vec::new()),
        (200, "<html><body><ul></ul></body></html>".to_string())
    );
    assert_eq!(
        listing_reply("a", &vec!["b".to_string()]),
        (
            200,
            "<html><body><ul><li><a href=\"/a/b\">b</a></li></ul></body></html>".to_string()
        )
    );
}
