use shard_cache::text::first_char;
use shard_cache::text::same_text;
use shard_cache::text::skip_first_char;

#[test]
fn same_text_compares_whole_strings() {
    assert!(same_text("", ""));
    assert!(same_text("ping", "ping"));
    assert!(!same_text("ping", "pong"));
    assert!(!same_text("ping", "pin"));
    assert!(!same_text("pin", "ping"));
    assert!(!same_text("Ping", "ping"));
    assert!(same_text("héllo", "héllo"));
    assert!(!same_text("héllo", "hello"));
}

#[test]
fn first_char_of_text() {
    assert_eq!(first_char(""), None);
    assert_eq!(first_char("$5"), Some('$'));
    assert_eq!(first_char("é"), Some('é'));
}

#[test]
fn skip_first_char_drops_one_character() {
    assert_eq!(skip_first_char(""), "");
    assert_eq!(skip_first_char("$"), "");
    assert_eq!(skip_first_char("$12"), "12");
    assert_eq!(skip_first_char("éa"), "a");
}
