use pushme_server::auth::{
    constant_time_eq, install, install_hashed, keep_hash, md5_pushme, verify_login, LoginGuard,
    Sessions, SESSION_COOKIE,
};
use pushme_server::config::AppConfig;
use pushme_server::crypto::{md5_hex, use_base64};
use pushme_server::ip::{ip_allowed, ipv4_match, parse_cidr_v4, parse_ip, parse_ipv4, parse_ipv6, same_ip, IpAddr};

const SECOND: u128 = 1_000_000_000;

#[test]
fn the_salted_digest_has_three_layers() {
    let a = md5_hex("adminpushme");
    let b = md5_hex(&format!("pushme{}pushme", a));
    assert_eq!(md5_pushme("admin"), md5_hex(&format!("pushme{}", b)));
    assert_eq!(md5_pushme("admin").len(), 32);
}

#[test]
fn the_administrator_can_log_in() {
    let mut cfg = AppConfig::default();
    assert_eq!(verify_login(&mut cfg, "admin", "secret"), Err("系统未安装"));
    assert_eq!(install(&mut cfg, "admin", "secret"), Ok(()));
    assert!(cfg.installed());
    assert_eq!(cfg.admin_user, "admin");
    assert_eq!(cfg.user, md5_pushme("admin"));
    assert_eq!(cfg.password, md5_pushme("secret"));
    let hash = cfg.pass_hash.clone();
    assert_eq!(verify_login(&mut cfg, "admin", "secret"), Ok(()));
    assert_eq!(verify_login(&mut cfg, "admin", "wrong"), Err("账号或密码错误"));
    assert_eq!(verify_login(&mut cfg, "other", "secret"), Err("账号或密码错误"));
    assert_eq!(cfg.pass_hash, hash);
}

#[test]
fn a_failed_hash_enters_nobody() {
    let mut cfg = AppConfig::default();
    let r = install_hashed(&mut cfg, "admin", "secret", Err("no chance".to_string()));
    assert_eq!(r, Err("no chance".to_string()));
    assert!(!cfg.installed());
    let r = install_hashed(&mut cfg, "admin", "secret", Ok("h".to_string()));
    assert_eq!(r, Ok(()));
    assert_eq!(cfg.pass_hash, "h");
}

#[test]
fn a_digest_password_gets_a_hash_at_the_first_login() {
    let mut cfg = AppConfig::default();
    cfg.user = md5_pushme("admin");
    cfg.password = md5_pushme("secret");
    assert_eq!(verify_login(&mut cfg, "admin", "wrong"), Err("账号或密码错误"));
    assert_eq!(cfg.pass_hash, "");
    assert_eq!(verify_login(&mut cfg, "admin", "secret"), Ok(()));
    assert_eq!(cfg.pass_hash.len(), 60);
    cfg.password = "changed".to_string();
    assert_eq!(verify_login(&mut cfg, "admin", "secret"), Ok(()));
    keep_hash(&mut cfg, Err("e".to_string()));
    assert_eq!(cfg.pass_hash.len(), 60);
}

#[test]
fn a_token_stands_for_its_user_until_it_runs_out() {
    let sessions = Sessions::new(&use_base64(b"0123456789abcdef"));
    let token = sessions.issue_at("管理员", 1000);
    assert_eq!(token.split('.').count(), 3);
    assert!(token.starts_with(&format!("{}.605800.", use_base64("管理员".as_bytes()))));
    assert_eq!(sessions.verify_at(&token, 1000), Some("管理员".to_string()));
    assert_eq!(sessions.verify_at(&token, 605_799), Some("管理员".to_string()));
    assert_eq!(sessions.verify_at(&token, 605_800), None);
}

#[test]
fn a_changed_token_stands_for_nobody() {
    let sessions = Sessions::new(&use_base64(b"0123456789abcdef"));
    let token = sessions.issue_at("admin", 1000);
    let parts: Vec<&str> = token.split('.').collect();
    let longer = format!("{}.9999999.{}", parts[0], parts[2]);
    assert_eq!(sessions.verify_at(&longer, 1000), None);
    let other = format!("{}.{}.{}", use_base64(b"root"), parts[1], parts[2]);
    assert_eq!(sessions.verify_at(&other, 1000), None);
    assert_eq!(sessions.verify_at(&format!("{}.x", token), 1000), None);
    assert_eq!(sessions.verify_at("", 1000), None);
    assert_eq!(sessions.verify_at("a.b", 1000), None);
    let strangers = Sessions::new(&use_base64(b"another key"));
    assert_eq!(strangers.verify_at(&token, 1000), None);
    let nobody = sessions.issue_at("", 1000);
    assert_eq!(sessions.verify_at(&nobody, 1000), None);
}

#[test]
fn a_token_of_now_counts_now() {
    let sessions = Sessions::new("not base64!");
    let token = sessions.issue("admin").unwrap();
    assert_eq!(sessions.verify(&token), Some("admin".to_string()));
    assert_eq!(sessions.verify("a.b.c"), None);
    assert_eq!(SESSION_COOKIE, "pushme_session");
}

#[test]
fn a_token_is_owed_while_its_end_can_be_written() {
    let sessions = Sessions::new(&use_base64(b"0123456789abcdef"));
    let last = u64::MAX - 604_800;
    let token = sessions.issue_checked("admin", last).unwrap();
    assert_eq!(token, sessions.issue_at("admin", last));
    assert_eq!(sessions.issue_checked("admin", last + 1), Err("clock out of range".to_string()));
    let parts: Vec<&str> = token.split('.').collect();
    assert_eq!(parts.len(), 3);
    assert_eq!(parts[0], use_base64(b"admin"));
    assert_eq!(parts[1], "18446744073709551615");
    assert_eq!(parts[2].len(), 64);
    assert!(parts[2].bytes().all(|b| b.is_ascii_digit() || (b'a'..=b'f').contains(&b)));
}

#[test]
fn session_keys_are_read_as_base64_or_as_text() {
    let a = Sessions::new(&use_base64(b"key"));
    let b = Sessions::new("a2V5");
    assert_eq!(a.issue_at("u", 1), b.issue_at("u", 1));
    let empty = Sessions::new("");
    let default = Sessions::new(&use_base64(b"pushme-default"));
    assert_eq!(empty.issue_at("u", 1), default.issue_at("u", 1));
    let raw = Sessions::new("key!");
    let same = Sessions::new(&use_base64(b"key!"));
    assert_eq!(raw.issue_at("u", 1), same.issue_at("u", 1));
}

#[test]
fn bytes_are_compared_whole() {
    assert!(constant_time_eq(b"", b""));
    assert!(constant_time_eq(b"abc", b"abc"));
    assert!(!constant_time_eq(b"abc", b"abd"));
    assert!(!constant_time_eq(b"abc", b"ab"));
}

#[test]
fn the_fifth_failure_locks_for_three_minutes() {
    let mut guard = LoginGuard::new();
    assert_eq!(guard.lock_remaining_at(0), 0);
    assert_eq!(guard.record_fail_at(SECOND), 4);
    assert_eq!(guard.record_fail_at(2 * SECOND), 3);
    assert_eq!(guard.record_fail_at(3 * SECOND), 2);
    assert_eq!(guard.record_fail_at(4 * SECOND), 1);
    assert_eq!(guard.lock_remaining_at(4 * SECOND), 0);
    assert_eq!(guard.record_fail_at(5 * SECOND), 0);
    assert_eq!(guard.lock_remaining_at(5 * SECOND), 180);
    assert_eq!(guard.lock_remaining_at(5 * SECOND + 1), 179);
    assert_eq!(guard.lock_remaining_at(184 * SECOND + SECOND / 2), 1);
    assert_eq!(guard.lock_remaining_at(185 * SECOND - 1), 1);
    assert_eq!(guard.lock_remaining_at(185 * SECOND), 0);
    assert_eq!(guard.record_fail_at(185 * SECOND), 4);
}

#[test]
fn a_lock_lasts_three_minutes_of_the_clock() {
    let mut guard = LoginGuard::new();
    let failed = std::time::Instant::now() + std::time::Duration::from_secs(1000);
    for left in [4, 3, 2, 1, 0] {
        assert_eq!(guard.record_fail_at(guard.now_at(failed)), left);
    }
    let left = |secs: u64| {
        guard.lock_remaining_at(guard.now_at(failed + std::time::Duration::from_secs(secs)))
    };
    assert_eq!(left(0), 180);
    assert_eq!(left(1), 179);
    assert_eq!(left(179), 1);
    assert_eq!(left(180), 0);
}

#[test]
fn a_success_forgets_failures() {
    let mut guard = LoginGuard::new();
    for left in [4, 3, 2, 1] {
        assert_eq!(guard.record_fail(), left);
    }
    assert!(!guard.is_locked());
    guard.reset();
    assert_eq!(guard.record_fail(), 4);
    for _ in 0..4 {
        guard.record_fail();
    }
    assert!(guard.is_locked());
    let left = guard.lock_remaining();
    assert!(left >= 178 && left <= 180);
    assert!(guard.now() > 0);
}

#[test]
fn a_guard_measures_time_from_when_it_was_made() {
    let early = std::time::Instant::now();
    let guard = LoginGuard::new();
    let late = std::time::Instant::now() + std::time::Duration::from_secs(7);
    assert_eq!(guard.now_at(early), 0);
    assert!(guard.now_at(late) >= 7_000_000_000);
    assert!(guard.now_at(late) < 8_000_000_000);
}

fn list(entries: &[&str]) -> Vec<String> {
    entries.iter().map(|e| e.to_string()).collect()
}

fn ip(s: &str) -> IpAddr {
    parse_ip(s).unwrap()
}

#[test]
fn ipv4_addresses_are_read() {
    assert_eq!(parse_ipv4("192.168.1.10"), Some(0xC0A8010A));
    assert_eq!(parse_ipv4("0.0.0.0"), Some(0));
    assert_eq!(parse_ipv4("255.255.255.255"), Some(u32::MAX));
    for bad in ["", "1.2.3", "1.2.3.4.5", "1.2.3.256", "01.2.3.4", "1.2.3.", "+1.2.3.4", "a.b.c.d", "1.2.3.4 "] {
        assert_eq!(parse_ipv4(bad), None);
    }
}

#[test]
fn ipv6_addresses_are_read() {
    assert_eq!(parse_ipv6("::"), Some(vec![0; 8]));
    assert_eq!(parse_ipv6("::1"), Some(vec![0, 0, 0, 0, 0, 0, 0, 1]));
    assert_eq!(parse_ipv6("2001:DB8::ff"), Some(vec![0x2001, 0xdb8, 0, 0, 0, 0, 0, 0xff]));
    assert_eq!(parse_ipv6("1:2:3:4:5:6:7:8"), Some(vec![1, 2, 3, 4, 5, 6, 7, 8]));
    assert_eq!(parse_ipv6("1:2:3:4:5:6:7::"), Some(vec![1, 2, 3, 4, 5, 6, 7, 0]));
    assert_eq!(parse_ipv6("::ffff:1.2.3.4"), Some(vec![0, 0, 0, 0, 0, 0xffff, 0x102, 0x304]));
    assert_eq!(parse_ipv6("1:2:3:4:5:6:1.2.3.4"), Some(vec![1, 2, 3, 4, 5, 6, 0x102, 0x304]));
    for bad in [
        "", ":", ":::", "1", "1:2:3:4:5:6:7", "1:2:3:4:5:6:7:8:9", "1::2::3", "12345::", "g::",
        "1:2:3:4:5:6:7:8::", "1.2.3.4::", "1:2:3:4:5:6:7:1.2.3.4", "::1.2.3.4:5", ":1", "1:",
    ] {
        assert_eq!(parse_ipv6(bad), None);
    }
}

#[test]
fn both_kinds_of_addresses_are_read() {
    assert!(same_ip(&ip("127.0.0.1"), &IpAddr::V4(0x7F000001)));
    assert!(same_ip(&ip("1:2::7:8"), &IpAddr::V6(vec![1, 2, 0, 0, 0, 0, 7, 8])));
    assert!(same_ip(&ip("::2:3:4:5:6:7:8"), &IpAddr::V6(vec![0, 2, 3, 4, 5, 6, 7, 8])));
    assert!(same_ip(&ip("0001::"), &IpAddr::V6(vec![1, 0, 0, 0, 0, 0, 0, 0])));
    for bad in ["00001::", "fe80::1%eth0", "1:2:3:4:5:6:7:8:", "::00.0.0.1", "1.2.3.4.5", "host"] {
        assert!(parse_ip(bad).is_none());
    }
}

#[test]
fn an_empty_list_allows_everybody() {
    assert!(ip_allowed(&vec![], &ip("8.8.8.8")));
    assert!(!ip_allowed(&list(&["", " "]), &ip("8.8.8.8")));
}

#[test]
fn addresses_and_networks_are_allowed() {
    let allowed = list(&[" 10.0.0.1 ", "192.168.1.0/24", "::1", "nonsense", "1.2.3.4/33"]);
    assert!(ip_allowed(&allowed, &ip("10.0.0.1")));
    assert!(!ip_allowed(&allowed, &ip("10.0.0.2")));
    assert!(ip_allowed(&allowed, &ip("192.168.1.77")));
    assert!(!ip_allowed(&allowed, &ip("192.168.2.1")));
    assert!(ip_allowed(&allowed, &ip("0:0:0:0:0:0:0:1")));
    assert!(!ip_allowed(&allowed, &ip("::2")));
    assert!(!ip_allowed(&allowed, &ip("1.2.3.4")));
    assert!(!ip_allowed(&list(&["10.0.0.0/8"]), &ip("::1")));
}

#[test]
fn networks_are_compared_by_their_leading_bits() {
    assert_eq!(parse_cidr_v4("10.1.0.0/16"), Some((0x0A010000, 16)));
    assert_eq!(parse_cidr_v4("10.1.0.0/+8"), Some((0x0A010000, 8)));
    assert_eq!(parse_cidr_v4("10.1.0.0"), None);
    assert_eq!(parse_cidr_v4("10.1.0.0/33"), None);
    assert_eq!(parse_cidr_v4("10.1.0.0/16/1"), None);
    assert_eq!(parse_cidr_v4("::/16"), None);
    assert!(ipv4_match(1, 2, 0));
    assert!(ipv4_match(0x80000000, 0xFFFFFFFF, 1));
    assert!(!ipv4_match(0x80000000, 0x7FFFFFFF, 1));
    assert!(ipv4_match(6, 7, 31));
    assert!(!ipv4_match(6, 8, 31));
    assert!(ipv4_match(7, 7, 32));
    assert!(!ipv4_match(6, 7, 32));
    assert!(same_ip(&ip("1.2.3.4"), &IpAddr::V4(0x01020304)));
    assert!(!same_ip(&ip("::"), &IpAddr::V4(0)));
}
