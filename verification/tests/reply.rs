use shard_cache::reply::append_decimal;
use shard_cache::reply::Reply;

#[test]
fn fixed_replies() {
    assert_eq!(Reply::Pong.encode(), "+PONG\r\n");
    assert_eq!(Reply::Stored.encode(), "+OK\r\n");
    assert_eq!(Reply::Null.encode(), "$-1\r\n");
}

#[test]
fn bulk_reply_carries_its_byte_length() {
    assert_eq!(Reply::Bulk("hello".to_string()).encode(), "$5\r\nhello\r\n");
    assert_eq!(Reply::Bulk(String::new()).encode(), "$0\r\n\r\n");
    assert_eq!(Reply::Bulk("héllo".to_string()).encode(), "$6\r\nhéllo\r\n");
    let long = "x".repeat(1234);
    assert_eq!(Reply::Bulk(long.clone()).encode(), format!("$1234\r\n{long}\r\n"));
}

#[test]
fn unknown_word_is_reported() {
    assert_eq!(
        Reply::NotImplemented("flush".to_string()).encode(),
        "-ERROR 'flush' not implemented\r\n"
    );
}

#[test]
fn decimal_text_of_numbers() {
    for n in [0usize, 7, 9, 10, 11, 99, 100, 101, 1000, 65535, 1234567890, usize::MAX] {
        let mut text = String::from("n=");
        append_decimal(&mut text, n);
        assert_eq!(text, format!("n={n}"));
    }
}
