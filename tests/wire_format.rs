use syncclip::clipboard::ClipboardData;
use syncclip::crypto::seal_field;
use syncclip::sync::{fetched_from_response, Fetched};
use syncclip::wire::{bearer, clipboard_id, decimal_string, file_url, parse_i64, poll_url, server_url, signed_decimal_string};

#[test]
fn decimal_texts() {
    assert_eq!(decimal_string(0), "0");
    assert_eq!(decimal_string(5033), "5033");
    assert_eq!(decimal_string(u64::MAX), "18446744073709551615");
    assert_eq!(signed_decimal_string(-1), "-1");
    assert_eq!(signed_decimal_string(i64::MIN), "-9223372036854775808");
    assert_eq!(signed_decimal_string(42), "42");
}

#[test]
fn parsing_matches_std() {
    for s in ["0", "42", "-1", "+7", "", "-", "+", "12a", " 1", "9223372036854775807", "9223372036854775808",
              "-9223372036854775808", "-9223372036854775809", "00012", "99999999999999999999999"] {
        assert_eq!(parse_i64(s), s.parse::<i64>().ok(), "input {:?}", s);
    }
}

#[test]
fn clipboard_id_header() {
    assert_eq!(clipboard_id(None), 0);
    assert_eq!(clipboard_id(Some("17")), 17);
    assert_eq!(clipboard_id(Some("x")), 0);
}

#[test]
fn urls() {
    let url = server_url("127.0.0.1", 5033);
    assert_eq!(url, "http://127.0.0.1:5033/SyncClipboard.json");
    assert_eq!(poll_url(&url, 30, -1), "http://127.0.0.1:5033/SyncClipboard.json?wait=30&last_id=-1");
    assert_eq!(file_url("host", 80, "ab.png"), "http://host:80/file/ab.png");
    assert_eq!(bearer("tok"), "Bearer tok");
}

#[test]
fn response_outcomes() {
    assert!(matches!(fetched_from_response(false, None, None, 4, None), Fetched::NoData(4)));
    assert!(matches!(fetched_from_response(true, Some("3"), None, 4, None), Fetched::Failed));
    let sealed = seal_field("hello", "pw").unwrap();
    let body = ClipboardData::Text { content: sealed, html: None, file: None, device: None };
    match fetched_from_response(true, Some("9"), Some(body), 4, Some("pw")) {
        Fetched::Data(ClipboardData::Text { content, .. }, id) => {
            assert_eq!(id, 9);
            assert_eq!(content, "hello");
        }
        _ => panic!("Wrong data type"),
    }
    match fetched_from_response(true, None, Some(ClipboardData::new_text("a".to_string())), 4, None) {
        Fetched::Data(_, id) => assert_eq!(id, 0),
        _ => panic!("expected data"),
    }
}
