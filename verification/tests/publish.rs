use pushme_server::config::{AppConfig, ConfigStore};
use pushme_server::json::Json;
use pushme_server::mqtt::MqttHub;
use pushme_server::publish::{publish_job, push, send_test};
use pushme_server::push_api::{parse_params, PushJob};
use pushme_server::push_log::PushLog;
use pushme_server::third::Params;
use rumqttd::local::{LinkBuilder, LinkRx, LinkTx};
use rumqttd::{Notification, Router, RouterConfig};

/// A link to publish through, and one that hears what is published to some
/// topics.
fn links(topics: &[&str]) -> (LinkTx, LinkTx, LinkRx) {
    let config = RouterConfig {
        max_connections: 10,
        max_outgoing_packet_count: 200,
        max_segment_size: 1024 * 1024,
        max_segment_count: 10,
        ..Default::default()
    };
    let router = Router::new(0, config).spawn();
    let (tx, _, _) =
        LinkBuilder::new("publisher", router.clone()).dynamic_filters(true).build().unwrap();
    let (mut listener, mut rx, _) =
        LinkBuilder::new("listener", router).dynamic_filters(true).build().unwrap();
    for topic in topics {
        listener.subscribe(*topic).unwrap();
        loop {
            if let Some(Notification::DeviceAck(_)) = rx.recv().unwrap() {
                break;
            }
        }
    }
    (tx, listener, rx)
}

fn next(rx: &mut LinkRx) -> (String, String) {
    loop {
        if let Some(Notification::Forward(f)) = rx.recv().unwrap() {
            let topic = String::from_utf8(f.publish.topic.to_vec()).unwrap();
            return (topic, String::from_utf8(f.publish.payload.to_vec()).unwrap());
        }
    }
}

fn store() -> ConfigStore {
    let mut cfg = AppConfig::default();
    cfg.push_keys.push(Json::Text("K1".to_string()));
    cfg.push_keys.push(Json::Text("K2".to_string()));
    cfg.offline_messages = true;
    ConfigStore::load(Some(cfg))
}

fn query(q: &str) -> Params {
    parse_params(Some(q), "", b"").unwrap()
}

#[test]
fn every_key_gets_the_message() {
    let (mut link, _listener, mut rx) = links(&["K1", "K2"]);
    let mut hub = MqttHub::new();
    let mut store = store();
    let mut log = PushLog::new(5);
    let job = PushJob {
        keys: vec!["K2".to_string(), "K1".to_string()],
        single: false,
        title: "t".to_string(),
        payload: b"hello".to_vec(),
        third: false,
        offline_messages: true,
        offline_limit: 5,
    };
    let reply = publish_job(&job, &mut hub, &mut link, &mut store, &mut log);
    assert_eq!(reply.status, 200);
    assert_eq!(String::from_utf8(reply.body).unwrap(), "success");
    let mut heard = vec![next(&mut rx), next(&mut rx)];
    heard.sort();
    assert_eq!(
        heard,
        vec![
            ("K1".to_string(), "hello".to_string()),
            ("K2".to_string(), "hello".to_string())
        ]
    );
    assert_eq!(store.message_count(), 2);
    let entries = log.recent_n(5);
    assert_eq!(entries[0].key, "K2");
    assert_eq!(entries[1].key, "K1");
    assert_eq!(hub.take_offline("K1").len(), 1);
    assert_eq!(hub.take_offline("K2").len(), 1);
}

#[test]
fn a_push_reaches_who_is_subscribed() {
    let (mut link, _listener, mut rx) = links(&["K1"]);
    let mut hub = MqttHub::new();
    hub.subscribe_topic("K1");
    let mut store = store();
    let mut log = PushLog::new(5);
    let r = push(&query("push_key=K1&title=a"), &mut hub, &mut link, &mut store, &mut log);
    assert_eq!(r.logged, 1);
    assert_eq!(String::from_utf8(r.reply.body).unwrap(), "success");
    let (topic, payload) = next(&mut rx);
    assert_eq!(topic, "K1");
    assert!(payload.contains("\"title\":\"a\""));
    assert_eq!(hub.take_offline("K1").len(), 0);
    assert_eq!(store.message_count(), 1);
    assert_eq!(log.recent().len(), 1);
}

#[test]
fn a_refused_push_changes_nothing() {
    let (mut link, _listener, mut rx) = links(&["K1", "K2"]);
    let mut hub = MqttHub::new();
    let mut store = store();
    let mut log = PushLog::new(5);
    let r = push(&query("push_key=K1,nobody&title=a"), &mut hub, &mut link, &mut store, &mut log);
    assert_eq!(r.logged, 0);
    assert_eq!(String::from_utf8(r.reply.body).unwrap(), "非法push_key!");
    assert_eq!(store.message_count(), 0);
    assert_eq!(log.recent().len(), 0);
    assert_eq!(hub.take_offline("K1").len(), 0);
    let r = push(&query("push_key=K2&title=b"), &mut hub, &mut link, &mut store, &mut log);
    assert_eq!(r.logged, 1);
    assert_eq!(next(&mut rx).0, "K2");
}

#[test]
fn a_test_message_is_published() {
    let (mut link, _listener, mut rx) = links(&["K2"]);
    let mut hub = MqttHub::new();
    let mut store = store();
    let mut log = PushLog::new(5);
    let form = query("key=K2&title=T&content=C");
    let r = send_test(&None, &form, &mut hub, &mut link, &mut store, &mut log);
    assert_eq!(r.reply.status, 401);
    assert_eq!(r.logged, 0);
    assert_eq!(hub.take_offline("K2").len(), 0);
    let user = Some("admin".to_string());
    let r = send_test(&user, &form, &mut hub, &mut link, &mut store, &mut log);
    assert_eq!(String::from_utf8(r.reply.body).unwrap(), "{\"message\":\"已发送\",\"ok\":true}");
    assert_eq!(r.logged, 1);
    let (topic, payload) = next(&mut rx);
    assert_eq!(topic, "K2");
    assert!(payload.contains("\"title\":\"T\""));
    assert_eq!(log.recent()[0].result, "test-success");
    assert_eq!(hub.take_offline("K2").len(), 1);
}
