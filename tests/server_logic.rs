use syncclip::clipboard::ClipboardData;
use syncclip::server::{check_auth, discovery_info, history_page, poll_response, poll_step, HistoryItem, PollQuery, PollStep};
use syncclip::store::Database;
use syncclip::tracker::ClientTracker;
use syncclip::mobile::{mobile_config, mobile_view};
use syncclip::config::{default_db_path, get_config_path, Config};

#[test]
fn auth_rules() {
    assert!(check_auth(None, None));
    assert!(check_auth(None, Some("anything")));
    assert!(!check_auth(Some("test_secret_token"), None));
    assert!(!check_auth(Some("test_secret_token"), Some("Bearer wrong_token")));
    assert!(check_auth(Some("test_secret_token"), Some("Bearer test_secret_token")));
    assert!(!check_auth(Some("secret"), Some("InvalidFormat")));
    assert!(!check_auth(Some("secret"), Some("bearer secret")));
}

#[test]
fn poll_without_wait_answers_now() {
    let q = PollQuery { wait: None, last_id: Some(1) };
    assert!(matches!(poll_step(&q, Some(1)), PollStep::Respond));
}

#[test]
fn poll_with_current_id_waits() {
    let q = PollQuery { wait: Some(5), last_id: Some(3) };
    assert!(matches!(poll_step(&q, Some(3)), PollStep::Wait(5)));
    assert!(matches!(poll_step(&q, Some(4)), PollStep::Respond));
    let empty = PollQuery { wait: Some(1), last_id: Some(0) };
    assert!(matches!(poll_step(&empty, None), PollStep::Wait(1)));
}

#[test]
fn empty_store_is_not_found() {
    assert_eq!(poll_response(None, None).err(), Some(404));
}

#[test]
fn put_then_long_poll_scenario() {
    let mut db = Database::new(100);
    db.save(ClipboardData::new_text("hello".to_string()), String::new()).ok().unwrap();
    let first = PollQuery { wait: None, last_id: None };
    assert!(matches!(poll_step(&first, db.get_latest_id()), PollStep::Respond));
    let (id, data) = poll_response(db.get_latest(), db.get_latest_id()).ok().unwrap();
    assert_eq!(id, 1);
    assert!(matches!(data, ClipboardData::Text { ref content, .. } if content == "hello"));

    let waiting = PollQuery { wait: Some(5), last_id: Some(1) };
    assert!(matches!(poll_step(&waiting, db.get_latest_id()), PollStep::Wait(5)));
    db.save(ClipboardData::new_text("world".to_string()), String::new()).ok().unwrap();
    let (id, data) = poll_response(db.get_latest(), db.get_latest_id()).ok().unwrap();
    assert_eq!(id, 2);
    assert!(matches!(data, ClipboardData::Text { ref content, .. } if content == "world"));
    assert!(matches!(poll_step(&waiting, db.get_latest_id()), PollStep::Respond));
}

#[test]
fn history_items_follow_entry_kind() {
    let mut db = Database::new(0);
    db.save(ClipboardData::Text {
        content: "c".to_string(), html: Some("<b>c</b>".to_string()), file: None, device: Some("D".to_string()),
    }, "2024-01-01 00:00:00".to_string()).ok().unwrap();
    db.save(ClipboardData::File { hash: Some("h".to_string()), filename: "h.txt".to_string(), device: None }, "ts".to_string()).ok().unwrap();
    let items: Vec<HistoryItem> = db.get_history(50, 0).iter().map(HistoryItem::from_record).collect();
    assert_eq!(items[0].kind, "File");
    assert_eq!(items[0].file.as_deref(), Some("h.txt"));
    assert_eq!(items[0].hash.as_deref(), Some("h"));
    assert!(items[0].content.is_none());
    assert_eq!(items[1].kind, "Text");
    assert_eq!(items[1].content.as_deref(), Some("c"));
    assert_eq!(items[1].html.as_deref(), Some("<b>c</b>"));
    assert_eq!(items[1].timestamp, "2024-01-01 00:00:00");
    assert_eq!(history_page(None, None), (50, 0));
    assert_eq!(history_page(Some(5), Some(2)), (5, 2));
}

#[test]
fn discovery_endpoint_answer() {
    let info = discovery_info("0.1.0", None);
    assert_eq!(info.service, "SyncClipboard");
    assert_eq!(info.device_name, "Unknown Device");
    assert_eq!(info.capabilities, vec!["clipboard".to_string(), "file".to_string(), "history".to_string()]);
    assert_eq!(discovery_info("0.1.0", Some("box".to_string())).device_name, "box");
}

#[test]
fn tracker_keeps_names_and_expires() {
    let mut t = ClientTracker::new();
    t.record_client("10.0.0.1".to_string(), Some("Phone".to_string()), Some("ua".to_string()), 1000);
    t.record_client("10.0.0.1".to_string(), None, None, 1100);
    t.record_client("10.0.0.2".to_string(), None, None, 1100);
    let active = t.get_active_clients(1200);
    assert_eq!(active.len(), 2);
    assert_eq!(active[0].device_name.as_deref(), Some("Phone"));
    assert_eq!(active[0].last_seen_timestamp, 1100);
    assert_eq!(t.get_active_clients(1399).len(), 2);
    assert_eq!(t.get_active_clients(1400).len(), 0);
}

#[test]
fn mobile_views() {
    let m = mobile_view(ClipboardData::new_text("hi".to_string())).unwrap();
    assert_eq!(m.content, "hi");
    assert!(!m.is_file);
    assert!(mobile_view(ClipboardData::Image { hash: None, filename: "x".to_string(), device: None }).is_none());
    let f = mobile_view(ClipboardData::File { hash: None, filename: "x".to_string(), device: None }).unwrap();
    assert!(f.is_file);
    let c = mobile_config("srv".to_string(), 5033, String::new(), "pw".to_string(), "id".to_string());
    assert!(c.auth.token.is_none());
    assert_eq!(c.auth.encrypt_password.as_deref(), Some("pw"));
}

#[test]
fn config_defaults() {
    let c = Config::defaults(None, "id-1".to_string());
    assert_eq!(c.server.port, 5033);
    assert_eq!(c.server.host, "0.0.0.0");
    assert_eq!(c.client.remote_host, "127.0.0.1");
    assert_eq!(c.general.device_name, "Desktop");
    assert_eq!(c.history.max_count, 100);
    assert_eq!(c.history.db_path, "history.db");
    assert_eq!(default_db_path(), "history.db");
    assert_eq!(get_config_path(), "config.toml");
    assert_eq!(syncclip::hello(), "Hello from core");
}

#[test]
fn default_tracker_is_empty() {
    let mut t = ClientTracker::default();
    assert!(t.get_active_clients(0).is_empty());
}
