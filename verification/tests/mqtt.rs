use pushme_server::config::AppConfig;
use pushme_server::json::Json;
use pushme_server::mqtt::{MqttHub, OfflineMsg};
use pushme_server::packet::{encode, take_packet, Control, Inbound, Outbound, Taken, MAX_PACKET_SIZE};
use pushme_server::session::{client_id, client_id_or, keep_alive_for, Event, Next, Session, Step};

fn config(keys: &[&str]) -> AppConfig {
    let mut cfg = AppConfig::default();
    for k in keys {
        cfg.push_keys.push(Json::Text(k.to_string()));
    }
    cfg
}

fn payloads(list: Vec<OfflineMsg>) -> Vec<Vec<u8>> {
    list.into_iter().map(|m| m.payload).collect()
}

// ---- the hub ----

#[test]
fn messages_wait_in_order_up_to_the_limit() {
    let mut hub = MqttHub::new();
    for m in [b"1", b"2", b"3", b"4"] {
        hub.keep_offline("k", m, true, 3);
    }
    hub.keep_offline("other", b"x", true, 3);
    assert_eq!(payloads(hub.take_offline("k")), vec![b"2".to_vec(), b"3".to_vec(), b"4".to_vec()]);
    assert_eq!(hub.take_offline("k").len(), 0);
    assert_eq!(hub.take_offline("other").len(), 1);
}

#[test]
fn a_smaller_limit_drops_the_oldest() {
    let mut hub = MqttHub::new();
    for m in [b"1", b"2", b"3"] {
        hub.keep_offline("k", m, true, 10);
    }
    hub.keep_offline("k", b"4", true, 2);
    assert_eq!(payloads(hub.take_offline("k")), vec![b"3".to_vec(), b"4".to_vec()]);
}

#[test]
fn messages_wait_only_where_that_is_wanted() {
    let mut hub = MqttHub::new();
    hub.keep_offline("k", b"1", false, 3);
    hub.keep_offline("k", b"2", true, 0);
    assert_eq!(hub.take_offline("k").len(), 0);
    hub.subscribe_topic("k");
    hub.keep_offline("k", b"3", true, 3);
    assert_eq!(hub.take_offline("k").len(), 0);
    hub.unsubscribe_topic("k");
    hub.keep_offline("k", b"4", true, 3);
    assert_eq!(hub.take_offline("k").len(), 1);
}

#[test]
fn subscribers_are_counted() {
    let mut hub = MqttHub::new();
    assert_eq!(hub.online("k"), 0);
    hub.subscribe_topic("k");
    hub.subscribe_topic("k");
    assert_eq!(hub.online("k"), 2);
    assert_eq!(hub.online("j"), 0);
    hub.unsubscribe_topic("k");
    assert_eq!(hub.online("k"), 1);
    hub.unsubscribe_topic("k");
    hub.unsubscribe_topic("k");
    assert_eq!(hub.online("k"), 0);
    assert!(hub.has_room());
    hub.connected();
    hub.connected();
    hub.disconnected();
    assert_eq!(hub.connections, 1);
}

// ---- packets ----

fn written(out: Outbound) -> Vec<u8> {
    encode(out).unwrap()
}

#[test]
fn packets_are_written() {
    assert_eq!(written(Outbound::Control(Control::Accepted)), vec![0x20, 2, 0, 0]);
    assert_eq!(written(Outbound::Control(Control::Refused)), vec![0x20, 2, 0, 1]);
    assert_eq!(written(Outbound::Control(Control::PingResp)), vec![0xD0, 0]);
    assert_eq!(written(Outbound::Control(Control::PubAck(0x102))), vec![0x40, 2, 1, 2]);
    assert_eq!(written(Outbound::Control(Control::PubComp(7))), vec![0x70, 2, 0, 7]);
    assert_eq!(written(Outbound::Control(Control::UnsubAck(7))), vec![0xB0, 2, 0, 7]);
    assert_eq!(written(Outbound::SubAck(9, vec![0, 1, 2, 0x80])), vec![0x90, 6, 0, 9, 0, 1, 2, 0x80]);
    assert_eq!(
        written(Outbound::Deliver("k".to_string(), 3, b"hi".to_vec())),
        vec![0x32, 7, 0, 1, b'k', 0, 3, b'h', b'i']
    );
}

#[test]
fn long_packets_have_long_lengths() {
    let b = written(Outbound::Deliver("k".to_string(), 3, vec![0; 195]));
    assert_eq!(&b[..5], &[0x32, 0xC8, 0x01, 0, 1]);
    assert_eq!(b.len(), 203);
    let b = written(Outbound::SubAck(9, vec![1; 20_000]));
    assert_eq!(&b[..6], &[0x90, 0xA2, 0x9C, 0x01, 0, 9]);
}

#[test]
fn packets_that_are_too_large_are_not_written() {
    let fits = MAX_PACKET_SIZE - 4 - 5;
    assert_eq!(
        written(Outbound::Deliver("k".to_string(), 1, vec![0; fits])).len(),
        MAX_PACKET_SIZE
    );
    assert_eq!(
        encode(Outbound::Deliver("k".to_string(), 1, vec![0; fits + 1])),
        Err("encode: Cannot send packet of size '1048577'. It's greater than the broker's maximum packet size of: '1048576'".to_string())
    );
    assert_eq!(
        encode(Outbound::SubAck(1, vec![0; MAX_PACKET_SIZE])),
        Err("encode: Cannot send packet of size '1048582'. It's greater than the broker's maximum packet size of: '1048576'".to_string())
    );
}

fn taken(bytes: &[u8]) -> (Taken, Vec<u8>) {
    let mut buf = bytes.to_vec();
    let t = take_packet(&mut buf);
    (t, buf)
}

#[test]
fn packets_are_taken_off_the_front() {
    let connect = [0x10, 14, 0, 4, b'M', b'Q', b'T', b'T', 4, 2, 0, 60, 0, 2, b'i', b'd', 0xC0, 0];
    match taken(&connect) {
        (Taken::Packet(Inbound::Connect(v4, keep_alive, id)), rest) => {
            assert!(v4);
            assert_eq!(keep_alive, 60);
            assert_eq!(id, "id");
            assert_eq!(rest, vec![0xC0, 0]);
        }
        _ => panic!("no connect"),
    }
    let v5 = [0x10, 12, 0, 4, b'M', b'Q', b'T', b'T', 5, 2, 0, 60, 0, 0];
    assert!(matches!(taken(&v5), (Taken::Packet(Inbound::Connect(false, 60, _)), _)));
    assert!(matches!(taken(&[0xC0, 0]), (Taken::Packet(Inbound::PingReq), _)));
    assert!(matches!(taken(&[0xE0, 0]), (Taken::Packet(Inbound::Disconnect), _)));
    assert!(matches!(taken(&[0x62, 2, 0, 5]), (Taken::Packet(Inbound::PubRel(5)), _)));
    assert!(matches!(taken(&[0x40, 2, 0, 5]), (Taken::Packet(Inbound::Other), _)));
}

#[test]
fn packets_with_topics_are_read() {
    match taken(&[0x82, 10, 0, 7, 0, 1, b'a', 1, 0, 1, b'b', 0]) {
        (Taken::Packet(Inbound::Subscribe(pkid, filters)), _) => {
            assert_eq!(pkid, 7);
            assert_eq!(filters, vec![("a".to_string(), 1), ("b".to_string(), 0)]);
        }
        _ => panic!("no subscribe"),
    }
    match taken(&[0xA2, 5, 0, 8, 0, 1, b'a']) {
        (Taken::Packet(Inbound::Unsubscribe(pkid, topics)), _) => {
            assert_eq!(pkid, 8);
            assert_eq!(topics, vec!["a".to_string()]);
        }
        _ => panic!("no unsubscribe"),
    }
    match taken(&[0x32, 7, 0, 1, b'k', 0, 3, b'h', b'i']) {
        (Taken::Packet(Inbound::Publish(qos, topic, pkid, payload)), rest) => {
            assert_eq!((qos, topic.as_str(), pkid, payload), (1, "k", 3, b"hi".to_vec()));
            assert!(rest.is_empty());
        }
        _ => panic!("no publish"),
    }
}

#[test]
fn incomplete_packets_wait_and_others_are_refused() {
    assert!(matches!(taken(&[]), (Taken::NeedMore(2), _)));
    assert!(matches!(taken(&[0x62, 2, 0]), (Taken::NeedMore(1), _)));
    match taken(&[0xF0, 0]) {
        (Taken::Malformed(e), _) => assert!(e.starts_with("malformed packet: ")),
        _ => panic!("read"),
    }
    match taken(&[0x32, 0xFF, 0xFF, 0xFF, 0x7F]) {
        (Taken::Malformed(e), rest) => {
            assert_eq!(e, "malformed packet: payload size limit exceeded: 268435455");
            assert_eq!(rest.len(), 5);
        }
        _ => panic!("read"),
    }
}

// ---- sessions ----

fn ready(cfg: &AppConfig, hub: &mut MqttHub) -> Session {
    let mut s = Session::new();
    let step = s.step(Event::Packet(Inbound::Connect(true, 60, "id".to_string())), cfg, hub);
    assert!(matches!(step.next, Next::Register(_)));
    let step = s.step(Event::Done(Ok(())), cfg, hub);
    assert!(matches!(step.next, Next::Wait));
    assert_eq!(step.writes.len(), 1);
    assert!(matches!(step.writes[0], Outbound::Control(Control::Accepted)));
    s
}

fn ended(step: &Step) -> Result<(), String> {
    match &step.next {
        Next::End(r) => r.clone(),
        _ => panic!("not ended"),
    }
}

fn subscribe(s: &mut Session, topics: &[&str], cfg: &AppConfig, hub: &mut MqttHub) -> Vec<Outbound> {
    let filters: Vec<(String, u8)> = topics.iter().map(|t| (t.to_string(), 1)).collect();
    let mut step = s.step(Event::Packet(Inbound::Subscribe(5, filters)), cfg, hub);
    let mut all: Vec<Outbound> = Vec::new();
    loop {
        all.append(&mut step.writes);
        match step.next {
            Next::Subscribe(_) => step = s.step(Event::Done(Ok(())), cfg, hub),
            _ => return all,
        }
    }
}

#[test]
fn a_session_begins_with_connect() {
    let cfg = config(&["k"]);
    let mut hub = MqttHub::new();
    let mut s = Session::new();
    assert_eq!(s.idle_seconds(), None);
    assert!(!s.takes(&Event::Silence));
    let step = s.step(Event::Packet(Inbound::PingReq), &cfg, &mut hub);
    assert_eq!(ended(&step), Err("first packet must be CONNECT".to_string()));
    let mut s = Session::new();
    let step = s.step(Event::Packet(Inbound::Connect(false, 60, "id".to_string())), &cfg, &mut hub);
    assert!(matches!(step.writes[0], Outbound::Control(Control::Refused)));
    assert_eq!(ended(&step), Err("unsupported protocol version".to_string()));
    let mut s = Session::new();
    s.step(Event::Packet(Inbound::Connect(true, 30, "id".to_string())), &cfg, &mut hub);
    assert_eq!(s.idle_seconds(), Some(70));
    assert!(s.takes(&Event::Done(Ok(()))));
    assert!(!s.takes(&Event::Packet(Inbound::PingReq)));
    let step = s.step(Event::Done(Err("full".to_string())), &cfg, &mut hub);
    assert_eq!(ended(&step), Err("broker link: full".to_string()));
    assert!(!s.takes(&Event::Silence));
}

#[test]
fn common_keep_alives_become_an_hour() {
    assert_eq!(keep_alive_for(60), 3600);
    assert_eq!(keep_alive_for(300), 3600);
    assert_eq!(keep_alive_for(600), 3600);
    assert_eq!(keep_alive_for(61), 61);
    assert_eq!(keep_alive_for(0), 0);
    let cfg = config(&[]);
    let s = ready(&cfg, &mut MqttHub::new());
    assert_eq!(s.idle_seconds(), Some(7210));
}

#[test]
fn clients_without_an_id_get_one() {
    assert_eq!(client_id("me"), "me");
    assert!(client_id("").starts_with("anon-"));
    assert_eq!(client_id_or("", "x"), "anon-x");
    assert_eq!(client_id_or("me", "x"), "me");
}

#[test]
fn configured_keys_alone_are_granted() {
    let cfg = config(&["k", "l"]);
    let mut hub = MqttHub::new();
    let mut s = ready(&cfg, &mut hub);
    let writes = subscribe(&mut s, &["x", "k", "", "l"], &cfg, &mut hub);
    assert_eq!(writes.len(), 1);
    match &writes[0] {
        Outbound::SubAck(pkid, codes) => {
            assert_eq!(*pkid, 5);
            assert_eq!(*codes, vec![0x80, 1, 0x80, 1]);
        }
        _ => panic!("no answer"),
    }
    assert_eq!(hub.online("k"), 1);
    assert_eq!(hub.online("l"), 1);
    assert_eq!(hub.online("x"), 0);
}

#[test]
fn a_session_counts_once_for_a_topic() {
    let cfg = config(&["k"]);
    let mut hub = MqttHub::new();
    let mut a = ready(&cfg, &mut hub);
    let mut b = ready(&cfg, &mut hub);
    subscribe(&mut a, &["k", "k"], &cfg, &mut hub);
    subscribe(&mut a, &["k"], &cfg, &mut hub);
    subscribe(&mut b, &["k"], &cfg, &mut hub);
    assert_eq!(hub.online("k"), 2);
    let topics = vec!["k".to_string(), "unknown".to_string()];
    let step = b.step(Event::Packet(Inbound::Unsubscribe(6, topics.clone())), &cfg, &mut hub);
    assert!(matches!(&step.next, Next::Unsubscribe(t) if *t == topics));
    let step = b.step(Event::Done(Err("ignored".to_string())), &cfg, &mut hub);
    assert!(matches!(step.writes[0], Outbound::Control(Control::UnsubAck(6))));
    assert_eq!(hub.online("k"), 1);
    b.step(Event::Packet(Inbound::Unsubscribe(7, topics)), &cfg, &mut hub);
    assert_eq!(hub.online("k"), 1);
    a.close(&mut hub);
    assert_eq!(hub.online("k"), 0);
    b.close(&mut hub);
    assert_eq!(hub.online("k"), 0);
}

#[test]
fn missed_messages_reach_the_next_subscriber() {
    let cfg = config(&["k"]);
    let mut hub = MqttHub::new();
    for m in [b"1", b"2", b"3"] {
        hub.keep_offline("k", m, true, 2);
    }
    let mut s = ready(&cfg, &mut hub);
    let writes = subscribe(&mut s, &["k"], &cfg, &mut hub);
    assert_eq!(writes.len(), 3);
    match (&writes[0], &writes[1], &writes[2]) {
        (Outbound::Deliver(t, 1, a), Outbound::Deliver(_, 2, b), Outbound::SubAck(5, _)) => {
            assert_eq!(t, "k");
            assert_eq!(*a, b"2".to_vec());
            assert_eq!(*b, b"3".to_vec());
        }
        _ => panic!("other packets"),
    }
    assert_eq!(hub.take_offline("k").len(), 0);
    let step = s.step(Event::Forward(b"k".to_vec(), b"4".to_vec()), &cfg, &mut hub);
    assert!(matches!(&step.writes[0], Outbound::Deliver(t, 3, p) if t == "k" && *p == b"4".to_vec()));
}

#[test]
fn packet_ids_skip_zero() {
    let cfg = config(&["k"]);
    let mut hub = MqttHub::new();
    let mut s = ready(&cfg, &mut hub);
    let mut last: u16 = 0;
    for _ in 0..65_536 {
        let step = s.step(Event::Forward(b"k".to_vec(), vec![]), &cfg, &mut hub);
        match step.writes[0] {
            Outbound::Deliver(_, pkid, _) => {
                assert!(pkid > 0);
                last = pkid;
            }
            _ => panic!("no message"),
        }
    }
    assert_eq!(last, 1);
}

#[test]
fn a_failed_subscription_ends_the_session() {
    let cfg = config(&["k"]);
    let mut hub = MqttHub::new();
    hub.keep_offline("k", b"1", true, 2);
    let mut s = ready(&cfg, &mut hub);
    let filters = vec![("k".to_string(), 0)];
    s.step(Event::Packet(Inbound::Subscribe(5, filters)), &cfg, &mut hub);
    let step = s.step(Event::Done(Err("closed".to_string())), &cfg, &mut hub);
    assert_eq!(ended(&step), Err("subscribe: closed".to_string()));
    s.close(&mut hub);
    assert_eq!(hub.online("k"), 0);
    assert_eq!(hub.take_offline("k").len(), 1);
}

#[test]
fn published_messages_are_acknowledged() {
    let cfg = config(&["k"]);
    let mut hub = MqttHub::new();
    let mut s = ready(&cfg, &mut hub);
    let p = Inbound::Publish(1, "k".to_string(), 9, b"x".to_vec());
    let step = s.step(Event::Packet(p), &cfg, &mut hub);
    assert!(matches!(&step.next, Next::Publish(t, p) if t == "k" && *p == b"x".to_vec()));
    let step = s.step(Event::Done(Ok(())), &cfg, &mut hub);
    assert!(matches!(step.writes[0], Outbound::Control(Control::PubAck(9))));
    let p = Inbound::Publish(0, "k".to_string(), 0, b"x".to_vec());
    s.step(Event::Packet(p), &cfg, &mut hub);
    let step = s.step(Event::Done(Ok(())), &cfg, &mut hub);
    assert!(step.writes.is_empty());
    let p = Inbound::Publish(0, "k".to_string(), 0, b"x".to_vec());
    s.step(Event::Packet(p), &cfg, &mut hub);
    let step = s.step(Event::Done(Err("full".to_string())), &cfg, &mut hub);
    assert_eq!(ended(&step), Err("publish: full".to_string()));
}

#[test]
fn a_stray_publication_ends_the_session() {
    let cfg = config(&["k"]);
    let mut hub = MqttHub::new();
    for topic in ["x", ""] {
        let mut s = ready(&cfg, &mut hub);
        let p = Inbound::Publish(1, topic.to_string(), 9, b"x".to_vec());
        let step = s.step(Event::Packet(p), &cfg, &mut hub);
        assert_eq!(ended(&step), Ok(()));
        assert!(step.writes.is_empty());
    }
}

#[test]
fn other_packets_and_events() {
    let cfg = config(&["k"]);
    let mut hub = MqttHub::new();
    let mut s = ready(&cfg, &mut hub);
    let step = s.step(Event::Packet(Inbound::PingReq), &cfg, &mut hub);
    assert!(matches!(step.writes[0], Outbound::Control(Control::PingResp)));
    let step = s.step(Event::Packet(Inbound::PubRel(4)), &cfg, &mut hub);
    assert!(matches!(step.writes[0], Outbound::Control(Control::PubComp(4))));
    let step = s.step(Event::Packet(Inbound::Other), &cfg, &mut hub);
    assert!(step.writes.is_empty());
    let step = s.step(Event::Packet(Inbound::Disconnect), &cfg, &mut hub);
    assert_eq!(ended(&step), Ok(()));
    let again = Inbound::Connect(true, 1, "id".to_string());
    let step = ready(&cfg, &mut hub).step(Event::Packet(again), &cfg, &mut hub);
    assert_eq!(ended(&step), Err("duplicate CONNECT".to_string()));
    let step = ready(&cfg, &mut hub).step(Event::Silence, &cfg, &mut hub);
    assert_eq!(ended(&step), Err("read timeout (keepalive)".to_string()));
    let step = ready(&cfg, &mut hub).step(Event::ReadFailed("e".to_string()), &cfg, &mut hub);
    assert_eq!(ended(&step), Err("e".to_string()));
    let step = ready(&cfg, &mut hub).step(Event::RouterClosed, &cfg, &mut hub);
    assert_eq!(ended(&step), Err("router closed link".to_string()));
    let step = ready(&cfg, &mut hub).step(Event::RouterFailed("e".to_string()), &cfg, &mut hub);
    assert_eq!(ended(&step), Err("router: e".to_string()));
    let odd = Event::Packet(Inbound::Subscribe(1, vec![("k".to_string(), 3)]));
    assert!(!ready(&cfg, &mut hub).takes(&odd));
}
