use pushme_server::config::{AppConfig, ConfigStore};
use pushme_server::json::Json;
use pushme_server::push_api::{
    bad_upgrade_reply, cert_download_reply, cert_reply, is_ws_request, missing_reply, parse_params,
    plan_push, preflight_reply, push_api, push_reply, record_publish, route, with_cors, PushJob,
    PushStep, Route,
};
use pushme_server::push_log::PushLog;
use pushme_server::reply::{text_reply, Reply};
use pushme_server::third::Params;

fn text(s: &str) -> Json {
    Json::Text(s.to_string())
}

fn config() -> AppConfig {
    let mut cfg = AppConfig::default();
    cfg.push_keys.push(text("plain"));
    cfg.push_keys.push(Json::Object(vec![
        ("key".to_string(), text("K1")),
        ("temp_key".to_string(), text("t1")),
        ("note".to_string(), text("first")),
    ]));
    cfg.push_keys.push(Json::Array(vec![text("K2"), text("t2")]));
    cfg
}

fn query(q: &str) -> Params {
    parse_params(Some(q), "", b"").unwrap()
}

fn step(q: &str) -> PushStep {
    plan_push(&query(q), &config(), "2024-01-02 03:04:05")
}

fn answer(q: &str) -> String {
    match step(q) {
        PushStep::Answer(s) => s,
        PushStep::Publish(_) => panic!("published"),
    }
}

fn job(q: &str) -> PushJob {
    match step(q) {
        PushStep::Answer(s) => panic!("{}", s),
        PushStep::Publish(job) => job,
    }
}

fn payload(job: &PushJob) -> String {
    String::from_utf8(job.payload.clone()).unwrap()
}

fn body(r: &Reply) -> String {
    String::from_utf8(r.body.clone()).unwrap()
}

fn header(r: &Reply, name: &str) -> String {
    match r.headers.iter().find(|h| h.0 == name) {
        Some(h) => h.1.clone(),
        None => panic!("no header {}", name),
    }
}

#[test]
fn a_push_without_parameters_names_the_service() {
    assert_eq!(answer(""), "PushMe Server");
    assert_eq!(answer("push_key="), "Push failed, empty push_key!");
    assert_eq!(answer("temp_key=unknown"), "PushMe Server");
}

#[test]
fn a_push_needs_a_key() {
    assert_eq!(answer("title=a"), "Push failed, empty push_key!");
    assert_eq!(answer("temp_key=unknown&title=a"), "Push failed, empty push_key!");
}

#[test]
fn a_push_key_must_be_a_string() {
    let p = parse_params(None, "application/json", br#"{"push_key":["K1"],"title":"a"}"#).unwrap();
    match plan_push(&p, &config(), "now") {
        PushStep::Answer(s) => assert_eq!(s, "Push failed, push_key type must be string!"),
        PushStep::Publish(_) => panic!("published"),
    }
}

#[test]
fn a_title_must_not_be_nested() {
    let p = parse_params(None, "application/json", br#"{"push_key":"K1","title":{"a":1}}"#).unwrap();
    match plan_push(&p, &config(), "now") {
        PushStep::Answer(s) => assert_eq!(s, "Push failed, the parameter format is incorrect!"),
        PushStep::Publish(_) => panic!("published"),
    }
    let p = parse_params(None, "application/json", br#"{"push_key":"K1","content":[1]}"#).unwrap();
    match plan_push(&p, &config(), "now") {
        PushStep::Answer(s) => assert_eq!(s, "Push failed, the parameter format is incorrect!"),
        PushStep::Publish(_) => panic!("published"),
    }
}

#[test]
fn an_unknown_key_is_refused() {
    assert_eq!(answer("push_key=nobody&title=a"), "非法push_key!");
    assert_eq!(answer("push_key=K1,nobody&title=a"), "非法push_key!");
}

#[test]
fn up_to_a_hundred_keys_may_be_named() {
    let mut hundred = "push_key=K1".to_string();
    for _ in 0..99 {
        hundred.push_str(",K1");
    }
    assert_eq!(job(&format!("{}&title=a", hundred)).keys.len(), 100);
    assert_eq!(
        answer(&format!("{},K1&title=a", hundred)),
        "Push failed, push_key numbers must be less than 100!"
    );
}

#[test]
fn an_empty_message_is_refused() {
    assert_eq!(answer("push_key=K1&title=&content="), "Push failed, empty title and content!");
    assert_eq!(payload(&job("push_key=K1&title=")), "{\"title\":\"\",\"date\":\"2024-01-02 03:04:05\"}");
    assert_eq!(payload(&job("push_key=K1")), "{\"date\":\"2024-01-02 03:04:05\"}");
}

#[test]
fn a_message_has_its_fields_in_order() {
    let j = job("push_key=K1&title=%E6%B5%8B%E8%AF%95&content=a+%22b%22%0A&type=markdown&date=today");
    assert_eq!(
        payload(&j),
        "{\"title\":\"测试\",\"content\":\"a \\\"b\\\"\\n\",\"date\":\"today\",\"type\":\"markdown\"}"
    );
    assert_eq!(j.keys, vec!["K1".to_string()]);
    assert_eq!(j.title, "测试");
    assert!(j.single);
    assert!(!j.third);
}

#[test]
fn several_keys_are_published_to_in_order() {
    let j = job("push_key=K2,,plain,K1&title=a");
    assert_eq!(j.keys, vec!["K2".to_string(), "plain".to_string(), "K1".to_string()]);
    assert!(!j.single);
}

#[test]
fn a_temporary_key_stands_for_its_key() {
    assert_eq!(job("temp_key=t1&title=a").keys, vec!["K1".to_string()]);
    assert_eq!(job("temp_key=t2&title=a").keys, vec!["K2".to_string()]);
    assert_eq!(payload(&job("temp_key=t1&title=a")), payload(&job("push_key=K1&title=a")));
    assert_eq!(job("push_key=plain&temp_key=t1&title=a").keys, vec!["plain".to_string()]);
}

#[test]
fn the_query_comes_before_the_body() {
    let p = parse_params(
        Some("push_key=K1&title=query"),
        "Application/JSON; charset=utf-8",
        br#"{"title":"body","content":"text","n":12,"b":true,"x":null}"#,
    )
    .unwrap();
    assert_eq!(p.get_str("title"), Some("query".to_string()));
    assert_eq!(p.get_str("content"), Some("text".to_string()));
    assert_eq!(p.get_str("n"), Some("12".to_string()));
    assert_eq!(p.get_str("b"), Some("true".to_string()));
    assert_eq!(p.get_str("x"), None);
    assert_eq!(p.get_str("missing"), None);
}

#[test]
fn a_form_is_read_by_its_content_type() {
    let form = b"a=1&b=x%20y&a=2&=none&c";
    let p = parse_params(None, "application/x-www-form-urlencoded", form).unwrap();
    assert_eq!(p.get_str("a"), Some("1".to_string()));
    assert_eq!(p.get_str("b"), Some("x y".to_string()));
    assert_eq!(p.get_str("c"), Some("".to_string()));
    assert_eq!(p.map.len(), 3);
    let p = parse_params(None, "text/plain", form).unwrap();
    assert_eq!(p.map.len(), 0);
    let p = parse_params(None, "application/x-www-form-urlencoded", b"a=\xff").unwrap();
    assert_eq!(p.map.len(), 0);
    let p = parse_params(None, "application/json", b"[1]").unwrap();
    assert_eq!(p.map.len(), 0);
    let p = parse_params(None, "application/json", b"{").unwrap();
    assert_eq!(p.map.len(), 0);
}

#[test]
fn an_escape_that_cuts_a_character_cannot_be_read() {
    assert!(parse_params(Some("a=%1\u{6d4b}"), "", b"").is_none());
    assert!(parse_params(Some("a=%"), "", b"").is_some());
    let form = "b=%1\u{6d4b}".as_bytes();
    assert!(parse_params(Some("a=1"), "application/x-www-form-urlencoded", form).is_none());
    assert!(parse_params(Some("b=1"), "application/x-www-form-urlencoded", form).is_some());
}

#[test]
fn the_current_time_is_the_date_of_a_message() {
    match push_api(&query("push_key=K1&title=a"), &config()) {
        PushStep::Publish(j) => {
            let p = payload(&j);
            assert!(p.starts_with("{\"title\":\"a\",\"date\":\""));
            assert_eq!(p.len(), "{\"title\":\"a\",\"date\":\"2024-01-02 03:04:05\"}".len());
            assert!(!p.contains("2024-01-02 03:04:05"));
        }
        PushStep::Answer(s) => panic!("{}", s),
    }
}

#[test]
fn a_feishu_text_message_is_published() {
    let p = parse_params(
        Some("push_key=K1"),
        "application/json",
        r#"{"msg_type":"text","content":{"text":"报警"}}"#.as_bytes(),
    )
    .unwrap();
    match plan_push(&p, &config(), "now") {
        PushStep::Publish(j) => {
            assert!(j.third);
            assert!(payload(&j).contains("报警"));
        }
        PushStep::Answer(s) => panic!("{}", s),
    }
}

#[test]
fn a_webhook_message_is_answered_in_json() {
    let p = parse_params(
        Some("push_key=K1"),
        "application/json",
        br#"{"msgtype":"markdown","markdown":{"title":"T","text":"**x**"}}"#,
    )
    .unwrap();
    let j = match plan_push(&p, &config(), "now") {
        PushStep::Publish(j) => j,
        PushStep::Answer(s) => panic!("{}", s),
    };
    assert!(payload(&j).ends_with(",\"type\":\"markdown\"}"));
    let r = push_reply(&j, &vec![Ok(())]);
    assert_eq!(body(&r), "{\"code\":0,\"errcode\":0,\"errmsg\":\"success\",\"msg\":\"success\"}");
    assert_eq!(header(&r, "content-type"), "application/json");
    let r = push_reply(&j, &vec![Err("full".to_string())]);
    assert_eq!(
        body(&r),
        "{\"code\":1,\"errcode\":1,\"errmsg\":\"failed: full\",\"msg\":\"failed: full\"}"
    );
}

#[test]
fn one_key_tells_of_a_failure_and_several_do_not() {
    let one = job("push_key=K1&title=a");
    let several = job("push_key=K1,K2&title=a");
    let failed = vec![Err("full".to_string())];
    assert_eq!(body(&push_reply(&one, &failed)), "failed: full");
    assert_eq!(body(&push_reply(&one, &vec![Ok(())])), "success");
    let both = vec![Ok(()), Err("full".to_string())];
    assert_eq!(body(&push_reply(&several, &both)), "success");
}

#[test]
fn a_publication_is_counted_and_logged() {
    let mut store = ConfigStore::load(Some(config()));
    let mut log = PushLog::new(10);
    record_publish(&mut store, &mut log, "t".to_string(), "K1", "title", &Ok(()));
    record_publish(&mut store, &mut log, "u".to_string(), "K2", "", &Err("full".to_string()));
    assert_eq!(store.message_count(), 1);
    let entries = log.recent();
    assert_eq!(entries.len(), 2);
    assert_eq!(entries[0].result, "failed: full");
    assert_eq!(entries[0].key, "K2");
    assert_eq!(entries[1].result, "success");
    assert_eq!(entries[1].time, "t");
}

#[test]
fn a_websocket_is_recognised() {
    assert!(is_ws_request("keep-alive, Upgrade", "WebSocket"));
    assert!(!is_ws_request("keep-alive", "websocket"));
    assert!(!is_ws_request("upgrade", "h2c"));
    assert!(!is_ws_request("", ""));
}

#[test]
fn the_public_port_serves_pushes_and_websockets_alone() {
    assert!(matches!(route(true, "OPTIONS", "", ""), Route::Preflight));
    assert!(matches!(route(true, "GET", "upgrade", "websocket"), Route::Socket));
    assert!(matches!(route(true, "POST", "", ""), Route::Push));
    assert!(matches!(route(false, "GET", "upgrade", "websocket"), Route::Socket));
    assert!(matches!(route(false, "GET", "", ""), Route::Missing));
    assert!(matches!(route(false, "OPTIONS", "", ""), Route::Missing));
    assert_eq!(missing_reply().status, 404);
    assert_eq!(body(&missing_reply()), "Not Found");
    assert_eq!(bad_upgrade_reply().status, 400);
    assert_eq!(body(&bad_upgrade_reply()), "invalid websocket upgrade");
}

#[test]
fn cross_origin_requests_are_allowed() {
    let r = with_cors(text_reply(200, "success"));
    assert_eq!(header(&r, "access-control-allow-origin"), "*");
    assert_eq!(header(&r, "access-control-max-age"), "86400");
    assert_eq!(header(&r, "content-type"), "text/plain; charset=utf-8");
    let r = preflight_reply();
    assert_eq!(r.status, 200);
    assert_eq!(header(&r, "access-control-allow-methods"), "GET, POST, PUT, DELETE, OPTIONS");
    assert!(r.body.is_empty());
}

#[test]
fn the_certificate_can_be_looked_at_and_saved() {
    let r = cert_reply(Some(b"PEM".to_vec()));
    assert_eq!(body(&r), "PEM");
    assert_eq!(header(&r, "content-type"), "application/x-x509-ca-cert");
    assert_eq!(body(&cert_reply(None)), "请先在服务端生成自签名证书");
    let r = cert_download_reply(Some(b"PEM".to_vec()));
    assert_eq!(header(&r, "content-disposition"), "attachment; filename=\"cert.crt\"");
    assert_eq!(header(&r, "cache-control"), "no-cache");
    assert_eq!(cert_download_reply(None).status, 404);
}
