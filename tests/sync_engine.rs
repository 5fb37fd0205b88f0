use syncclip::clipboard::ClipboardData;
use syncclip::crypto::{open_field, seal_field};
use syncclip::sync::{
    build_text_upload, fetched_from_response, image_filename, image_hash, open_entry, remote_filename, Fetched,
    RemoteAction, SyncState,
    TextUpload,
};

fn text_entry(content: &str, html: Option<&str>) -> ClipboardData {
    ClipboardData::Text {
        content: content.to_string(),
        html: html.map(|h| h.to_string()),
        file: None,
        device: Some("Peer".to_string()),
    }
}

#[test]
fn initial_state() {
    let s = SyncState::new();
    assert_eq!(s.last_id, -1);
    assert!(s.last_content.is_empty());
}

#[test]
fn local_text_change_is_uploaded() {
    let s = SyncState::new();
    let up = s.local_change(&"hello".to_string(), &String::new()).unwrap();
    assert_eq!(up.text, "hello");
    assert!(up.html.is_none());
    let up = s.local_change(&"Bold Text".to_string(), &"<b>Bold Text</b>".to_string()).unwrap();
    assert_eq!(up.html.as_deref(), Some("<b>Bold Text</b>"));
}

#[test]
fn empty_clipboard_is_not_uploaded() {
    let s = SyncState::new();
    assert!(s.local_change(&String::new(), &String::new()).is_none());
}

#[test]
fn uploaded_text_is_not_uploaded_again() {
    let mut s = SyncState::new();
    s.record_text("hello".to_string(), String::new());
    assert!(s.local_change(&"hello".to_string(), &String::new()).is_none());
    assert!(s.local_change(&"world".to_string(), &String::new()).is_some());
}

#[test]
fn uploaded_text_is_not_applied_again() {
    let mut s = SyncState::new();
    s.record_text("hello".to_string(), String::new());
    let action = s.apply_remote(Fetched::Data(text_entry("hello", None), 4));
    assert!(matches!(action, RemoteAction::Nothing));
    assert_eq!(s.last_id, 4);
}

#[test]
fn remote_text_is_applied() {
    let mut s = SyncState::new();
    match s.apply_remote(Fetched::Data(text_entry("world", None), 2)) {
        RemoteAction::SetText(t) => assert_eq!(t, "world"),
        _ => panic!("expected SetText"),
    }
    match s.apply_remote(Fetched::Data(text_entry("Bold Text", Some("<b>Bold Text</b>")), 3)) {
        RemoteAction::SetHtml { html, text } => {
            assert_eq!(html, "<b>Bold Text</b>");
            assert_eq!(text, "Bold Text");
        }
        _ => panic!("expected SetHtml"),
    }
    assert_eq!(s.last_id, 3);
    assert!(s.last_content.is_empty());
}

#[test]
fn remote_image_updates_hash_only() {
    let mut s = SyncState::new();
    let img = ClipboardData::Image { hash: Some("h1".to_string()), filename: "h1.png".to_string(), device: None };
    assert!(matches!(s.apply_remote(Fetched::Data(img, 7)), RemoteAction::Nothing));
    assert_eq!(s.last_image_hash, "h1");
    assert!(!s.image_needs_upload(&"h1".to_string()));
}

#[test]
fn cursor_rules() {
    let mut s = SyncState::new();
    s.last_id = 5;
    assert!(matches!(s.apply_remote(Fetched::NoData(3)), RemoteAction::Nothing));
    assert_eq!(s.last_id, 5);
    s.apply_remote(Fetched::NoData(9));
    assert_eq!(s.last_id, 9);
    assert!(matches!(s.apply_remote(Fetched::Failed), RemoteAction::Backoff));
    assert_eq!(s.last_id, 9);
}

#[test]
fn initial_sync_takes_server_baseline() {
    let mut s = SyncState::new();
    s.initial_sync(Fetched::Data(text_entry("on server", Some("<i>x</i>")), 12));
    assert_eq!(s.last_id, 12);
    assert_eq!(s.last_content, "on server");
    assert_eq!(s.last_html, "<i>x</i>");
    assert!(s.local_change(&"on server".to_string(), &"<i>x</i>".to_string()).is_none());
    let mut t = SyncState::new();
    t.initial_sync(Fetched::Failed);
    assert_eq!(t.last_id, -1);
}

#[test]
fn image_hash_is_sha256_hex() {
    assert_eq!(image_hash(b""), "e3b0c44298fc1c149afbf4c8996fb92427ae41e4649b934ca495991b7852b855");
    assert_eq!(image_hash(b"abc"), "ba7816bf8f01cfea414140de5dae2223b00361a396177a9cb410ff61f20015ad");
}

#[test]
fn identical_image_is_uploaded_once() {
    let png = vec![137u8, 80, 78, 71, 1, 2, 3];
    let mut s = SyncState::new();
    let h1 = image_hash(&png);
    assert!(s.image_needs_upload(&h1));
    s.record_image(h1);
    let h2 = image_hash(&png.clone());
    assert!(!s.image_needs_upload(&h2));
    assert!(s.image_needs_upload(&image_hash(b"other")));
}

#[test]
fn remote_file_names() {
    assert_eq!(image_filename("ab12"), "ab12.png");
    assert_eq!(remote_filename("ab12", "txt"), "ab12.txt");
    assert_eq!(remote_filename("ab12", ""), "ab12");
}

#[test]
fn plain_upload_carries_device() {
    let up = TextUpload { text: "hello".to_string(), html: None };
    match build_text_upload(up, None, &"Desk".to_string()).ok().unwrap() {
        ClipboardData::Text { content, html, file, device } => {
            assert_eq!(content, "hello");
            assert!(html.is_none() && file.is_none());
            assert_eq!(device.as_deref(), Some("Desk"));
        }
        _ => panic!("Wrong data type"),
    }
}

#[test]
fn encrypted_upload_seals_text_and_html() {
    let up = TextUpload { text: "Bold Text".to_string(), html: Some("<b>Bold Text</b>".to_string()) };
    match build_text_upload(up, Some("pw"), &"Desk".to_string()).ok().unwrap() {
        ClipboardData::Text { content, html, .. } => {
            assert!(content.starts_with("E2EE::"));
            assert_eq!(open_field(&content, "pw").unwrap(), "Bold Text");
            let h = html.unwrap();
            assert!(h.starts_with("E2EE::"));
            assert_eq!(open_field(&h, "pw").unwrap(), "<b>Bold Text</b>");
        }
        _ => panic!("Wrong data type"),
    }
}

#[test]
fn download_opens_envelope() {
    let sealed = seal_field("Hello E2EE World!", "mysecretpassword").unwrap();
    let entry = ClipboardData::Text { content: sealed.clone(), html: None, file: None, device: None };
    match open_entry(entry, Some("mysecretpassword")) {
        ClipboardData::Text { content, .. } => assert_eq!(content, "Hello E2EE World!"),
        _ => panic!("Wrong data type"),
    }
    let entry = ClipboardData::Text { content: sealed.clone(), html: None, file: None, device: None };
    match open_entry(entry, Some("wrongpassword")) {
        ClipboardData::Text { content, .. } => assert_eq!(content, sealed),
        _ => panic!("Wrong data type"),
    }
    let entry = ClipboardData::Text { content: sealed.clone(), html: None, file: None, device: None };
    match open_entry(entry, None) {
        ClipboardData::Text { content, .. } => assert!(content.starts_with("E2EE::")),
        _ => panic!("Wrong data type"),
    }
}

#[test]
fn metadata_entries_name_blobs_by_hash() {
    match syncclip::sync::image_entry("ab12".to_string(), &"Desk".to_string()) {
        ClipboardData::Image { hash, filename, device } => {
            assert_eq!(hash.as_deref(), Some("ab12"));
            assert_eq!(filename, "ab12.png");
            assert_eq!(device.as_deref(), Some("Desk"));
        }
        _ => panic!("Wrong data type"),
    }
    match syncclip::sync::file_entry("cd34".to_string(), "bin", &"Desk".to_string()) {
        ClipboardData::File { hash, filename, .. } => {
            assert_eq!(hash.as_deref(), Some("cd34"));
            assert_eq!(filename, "cd34.bin");
        }
        _ => panic!("Wrong data type"),
    }
}

#[test]
fn failed_upload_keeps_baseline() {
    let mut s = SyncState::new();
    s.finish_text_upload("a".to_string(), String::new(), false);
    assert!(s.last_content.is_empty());
    assert!(s.local_change(&"a".to_string(), &String::new()).is_some());
    s.finish_text_upload("a".to_string(), String::new(), true);
    assert_eq!(s.last_content, "a");
    s.finish_image_upload("h".to_string(), false);
    assert!(s.last_image_hash.is_empty());
    s.finish_image_upload("h".to_string(), true);
    assert_eq!(s.last_image_hash, "h");
}

#[test]
fn applied_download_becomes_baseline() {
    let mut s = SyncState::new();
    s.finish_apply(RemoteAction::SetText("x".to_string()), false);
    assert!(s.last_content.is_empty());
    s.finish_apply(RemoteAction::SetHtml { html: "<b>x</b>".to_string(), text: "x".to_string() }, true);
    assert_eq!(s.last_content, "x");
    assert_eq!(s.last_html, "<b>x</b>");
    s.finish_apply(RemoteAction::SetText("y".to_string()), true);
    assert_eq!(s.last_content, "y");
    assert!(s.last_html.is_empty());
}

#[test]
fn encrypted_upload_downloads_as_sent() {
    let up = TextUpload { text: "hello".to_string(), html: None };
    let data = build_text_upload(up, Some("pw"), &"A".to_string()).ok().unwrap();
    match fetched_from_response(true, Some("1"), Some(data), 0, Some("pw")) {
        Fetched::Data(ClipboardData::Text { content, html, device, .. }, 1) => {
            assert_eq!(content, "hello");
            assert!(html.is_none());
            assert_eq!(device.as_deref(), Some("A"));
        }
        _ => panic!("Wrong data type"),
    }
}
