use pushme_server::clock::{now_str, time_label, unix_seconds, unix_seconds_at};
use pushme_server::config::{AppConfig, ConfigStore, PushKey};
use pushme_server::crypto::{
    bcrypt_hash, bcrypt_verify, hash_or_reason, md5_hex, random_bytes, read_base64, sign,
    use_base64,
};
use pushme_server::json::{parse_json, Json};
use pushme_server::push_log::PushLog;
use pushme_server::text::{
    contains_text, decimal_text, hex, html_escape, lower_text, parse_unsigned, replace_text,
    split_text, strip_prefix, trim_text,
};

fn text(s: &str) -> Json {
    Json::Text(s.to_string())
}

#[test]
fn texts_are_split_and_trimmed() {
    assert_eq!(split_text("a,,b", ','), vec!["a".to_string(), "".to_string(), "b".to_string()]);
    assert_eq!(split_text("", ','), vec!["".to_string()]);
    assert_eq!(trim_text(" \t\u{3000}a b\n"), "a b");
    assert_eq!(trim_text("   "), "");
    assert_eq!(lower_text("AbÉ"), "abÉ");
    assert!(contains_text("abcabd", "abd"));
    assert!(!contains_text("ab", "abc"));
    assert!(contains_text("x", ""));
    assert_eq!(strip_prefix("count=12", "count="), Some("12".to_string()));
    assert_eq!(strip_prefix("coun", "count="), None);
}

#[test]
fn texts_are_replaced_from_the_left() {
    assert_eq!(replace_text("aaa", "aa", "b"), "ba");
    assert_eq!(replace_text("x{{A}}y{{A}}", "{{A}}", ""), "xy");
}

#[test]
fn html_is_escaped() {
    assert_eq!(html_escape("<a href=\"x\">'&'</a>"), "&lt;a href=&quot;x&quot;&gt;&#39;&amp;&#39;&lt;/a&gt;");
}

#[test]
fn numbers_are_written_and_read_back() {
    for n in [0u64, 9, 10, 99, 12345, u64::MAX] {
        assert_eq!(decimal_text(n), format!("{}", n));
        assert_eq!(parse_unsigned(&decimal_text(n), u64::MAX), Some(n));
    }
    assert_eq!(parse_unsigned("+7", 10), Some(7));
    assert_eq!(parse_unsigned("007", 10), Some(7));
    assert_eq!(parse_unsigned("11", 10), None);
    assert_eq!(parse_unsigned("", 10), None);
    assert_eq!(parse_unsigned("+", 10), None);
    assert_eq!(parse_unsigned("-1", 10), None);
    assert_eq!(parse_unsigned("18446744073709551616", u64::MAX), None);
    assert_eq!(hex(&[0, 15, 255]), "000fff");
}

#[test]
fn json_is_read_and_written() {
    let text = r#"{"b":[1,-2.5,true,null,"x\n\"\\\u0001"],"a":{}}"#;
    let v = parse_json(text.as_bytes()).unwrap();
    assert_eq!(v.to_text(), "{\"a\":{},\"b\":[1,-2.5,true,null,\"x\\n\\\"\\\\\\u0001\"]}");
    assert!(parse_json(b"{").is_none());
    assert!(parse_json(b"1 2").is_none());
    assert_eq!(parse_json(b" false ").unwrap().to_text(), "false");
    assert_eq!(v.copy().to_text(), v.to_text());
    assert!(v.is_nested());
    assert!(v.field("a").is_some());
    assert!(v.field("c").is_none());
    assert_eq!(Json::Array(vec![]).to_text(), "[]");
}

#[test]
fn entries_are_written_in_the_order_of_their_names() {
    let v = Json::Object(vec![
        ("b".to_string(), Json::unsigned(u64::MAX)),
        ("é".to_string(), Json::Null),
        ("a".to_string(), Json::signed(-3)),
        ("ab".to_string(), Json::Array(vec![Json::signed(i64::MIN)])),
        ("b".to_string(), Json::unsigned(7)),
    ]);
    assert_eq!(v.to_text(), "{\"a\":-3,\"ab\":[-9223372036854775808],\"b\":7,\"é\":null}");
    assert_eq!(Json::unsigned(u64::MAX).to_text(), "18446744073709551615");
    assert_eq!(Json::signed(5).scalar_text(), Some("5".to_string()));
    assert_eq!(v.to_value().to_string(), v.to_text());
}

#[test]
fn md5_of_known_texts() {
    assert_eq!(md5_hex(""), "d41d8cd98f00b204e9800998ecf8427e");
    assert_eq!(md5_hex("abc"), "900150983cd24fb0d6963f7d28e17f72");
}

#[test]
fn bcrypt_accepts_its_own_hash_alone() {
    let h = bcrypt_hash("secret").unwrap();
    assert_eq!(h.len(), 60);
    assert!(h.starts_with("$2b$12$"));
    assert!(bcrypt_verify("secret", &h));
    assert!(!bcrypt_verify("other", &h));
    assert!(!bcrypt_verify("secret", "no hash"));
}

#[test]
fn a_hash_is_kept_and_an_error_is_told() {
    assert_eq!(hash_or_reason(Ok("h".to_string())), Ok("h".to_string()));
    assert_eq!(
        hash_or_reason(Err(bcrypt::BcryptError::CostNotAllowed(3))),
        Err("Cost needs to be between 4 and 31, got 3".to_string())
    );
}

#[test]
fn seconds_are_counted_from_the_epoch() {
    let epoch = std::time::UNIX_EPOCH;
    let span = std::time::Duration::from_millis(5999);
    assert_eq!(unix_seconds_at(epoch), 0);
    assert_eq!(unix_seconds_at(epoch + span), 5);
    assert_eq!(unix_seconds_at(epoch - span), 0);
}

#[test]
fn hmac_of_a_known_text() {
    assert_eq!(
        sign(b"key", "The quick brown fox jumps over the lazy dog"),
        "f7bc83f430538424b13298e6aa6fb143ef4d59a14946175997479dbc2d1a3cd8"
    );
}

#[test]
fn base64_is_read_back() {
    assert_eq!(use_base64(b""), "");
    assert_eq!(use_base64(b"f"), "Zg");
    assert_eq!(use_base64(b"fo"), "Zm8");
    assert_eq!(use_base64(b"foo"), "Zm9v");
    assert_eq!(use_base64(&[251, 255, 254]), "-__-");
    for n in 0..20usize {
        let data = random_bytes(n);
        assert_eq!(data.len(), n);
        assert_eq!(read_base64(&use_base64(&data)), Some(data));
    }
    assert_eq!(read_base64("Zg=="), None);
    assert_eq!(read_base64("Z"), None);
    assert_eq!(read_base64("Zh"), None);
    assert_eq!(read_base64("a b"), None);
}

#[test]
fn chance_is_not_constant() {
    assert!(random_bytes(32) != random_bytes(32));
}

#[test]
fn the_clock_runs() {
    assert!(unix_seconds() > 1_600_000_000);
    let now = now_str();
    assert_eq!(now.len(), 19);
    assert_eq!(&now[4..5], "-");
    assert_eq!(&now[10..11], " ");
    assert_eq!(&now[16..17], ":");
    assert!(!time_label().is_empty());
}

#[test]
fn a_fresh_configuration() {
    let cfg = AppConfig::default();
    assert_eq!(cfg.config_version, 2);
    assert_eq!(cfg.server_port, 3100);
    assert_eq!(cfg.panel_port, 3010);
    assert_eq!(cfg.panel_bind, "127.0.0.1");
    assert_eq!(cfg.tls, "none");
    assert_eq!(cfg.panel_tls, "none");
    assert_eq!(cfg.status, "start");
    assert_eq!(cfg.offline_limit, 50);
    assert!(!cfg.public_panel);
    assert!(!cfg.offline_messages);
    assert!(!cfg.installed());
    assert_eq!(cfg.session_key, "");
}

#[test]
fn an_administrator_makes_an_installation() {
    let mut cfg = AppConfig::default();
    cfg.user = "u".to_string();
    assert!(!cfg.installed());
    cfg.password = "p".to_string();
    assert!(cfg.installed());
    let mut cfg = AppConfig::default();
    cfg.admin_user = "admin".to_string();
    assert!(!cfg.installed());
    cfg.pass_hash = "h".to_string();
    assert!(cfg.installed());
    let mut cfg = AppConfig::default();
    cfg.pass_hash = "h".to_string();
    assert!(!cfg.installed());
}

#[test]
fn push_keys_come_in_several_forms() {
    let mut cfg = AppConfig::default();
    cfg.push_keys.push(text("a"));
    cfg.push_keys.push(text(""));
    cfg.push_keys.push(Json::Null);
    cfg.push_keys.push(Json::Object(vec![
        ("key".to_string(), text("b")),
        ("temp_key".to_string(), text("tb")),
        ("more".to_string(), Json::Bool(true)),
    ]));
    cfg.push_keys.push(Json::Object(vec![("key".to_string(), Json::Bool(true))]));
    cfg.push_keys.push(Json::Array(vec![text("c"), text("tc"), text("note")]));
    cfg.push_keys.push(Json::Array(vec![text("d"), text(""), text(""), text("")]));
    cfg.push_keys.push(text("a"));
    let keys: Vec<String> = cfg.push_keys().iter().map(|k| k.key.clone()).collect();
    assert_eq!(keys, vec!["a", "b", "c", "a"]);
    assert_eq!(cfg.key_set(), vec!["a".to_string(), "b".to_string(), "c".to_string()]);
    assert_eq!(cfg.find_by_temp_key("tc"), Some("c".to_string()));
    assert_eq!(cfg.find_by_temp_key("tb"), Some("b".to_string()));
    assert_eq!(cfg.find_by_temp_key(""), None);
    assert_eq!(cfg.find_by_temp_key("x"), None);
    let k = PushKey::from_json(&cfg.push_keys[5]).unwrap();
    assert_eq!((k.key.as_str(), k.temp_key.as_str(), k.note.as_str()), ("c", "tc", "note"));
    assert_eq!(cfg.copy().push_keys().len(), 4);
}

#[test]
fn a_configuration_is_taken_into_service() {
    let mut old = AppConfig::default();
    old.config_version = 1;
    old.message_count = 7;
    old.tls = "self".to_string();
    let store = ConfigStore::load(Some(old));
    assert_eq!(store.get().config_version, 2);
    assert_eq!(store.get().session_key.len(), 43);
    assert_eq!(store.get().tls, "self");
    assert_eq!(store.message_count(), 7);
    let again = ConfigStore::load(Some(store.get().copy()));
    assert_eq!(again.get().session_key, store.get().session_key);
    let other = ConfigStore::load(None);
    assert!(other.get().session_key != store.get().session_key);
    let mut newer = AppConfig::default();
    newer.config_version = 5;
    assert_eq!(newer.settle(b"x").config_version, 5);
}

#[test]
fn a_change_counts_once_it_is_saved() {
    let mut store = ConfigStore::load(None);
    store.incr_message_count(3);
    let mut draft = store.draft();
    assert_eq!(draft.message_count, 3);
    draft.tls = "public".to_string();
    assert_eq!(store.update(draft, Err("disk full".to_string())), Err("disk full".to_string()));
    assert_eq!(store.get().tls, "none");
    let mut draft = store.draft();
    draft.tls = "public".to_string();
    assert_eq!(store.update(draft, Ok(())), Ok(()));
    assert_eq!(store.get().tls, "public");
    assert_eq!(store.get().message_count, 3);
}

#[test]
fn a_full_log_forgets_its_oldest_entry() {
    let mut log = PushLog::new(3);
    for i in 0..5 {
        log.push_at(format!("{}", i), "k", "title", "success");
    }
    let times: Vec<String> = log.recent().iter().map(|e| e.time.clone()).collect();
    assert_eq!(times, vec!["4", "3", "2"]);
    let times: Vec<String> = log.recent_n(2).iter().map(|e| e.time.clone()).collect();
    assert_eq!(times, vec!["3", "4"]);
    assert_eq!(log.recent_n(10).len(), 3);
    assert_eq!(log.recent_n(0).len(), 0);
    log.clear();
    assert_eq!(log.recent().len(), 0);
    let mut none = PushLog::new(0);
    none.push("k", "a", "success");
    none.push("k", "b", "success");
    assert_eq!(none.recent().len(), 1);
    assert_eq!(none.recent()[0].title, "b");
    assert_eq!(none.recent()[0].time.len(), 19);
}

#[test]
fn the_log_keeps_sixty_characters_of_a_title() {
    let mut log = PushLog::new(2);
    let long: String = "测".repeat(61);
    log.push_at("t".to_string(), "k", &long, "success");
    assert_eq!(log.recent()[0].title, "测".repeat(60));
    let e = log.recent_n(1)[0].copy();
    assert_eq!(e.to_json().field("key").unwrap().to_text(), "\"k\"");
}
