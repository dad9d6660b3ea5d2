use pushme_server::push_api::parse_params;
use pushme_server::third::{detect, is_url_decodable, parse_urlencoded, try_parse_urlencoded, url_decode, Params, ThirdData};

fn third(json: &str) -> ThirdData {
    detect(&parse_params(None, "application/json", json.as_bytes()).unwrap())
}

#[test]
fn other_requests_are_no_webhook_message() {
    let d = third(r#"{"title":"a"}"#);
    assert!(!d.detected);
    assert_eq!(d.title, "");
    assert_eq!(d.content, "");
    assert_eq!(d.kind, "");
}

#[test]
fn feishu_text() {
    let d = third(r#"{"msg_type":"text","content":{"text":"hello"}}"#);
    assert!(d.detected);
    assert_eq!(d.content, "hello");
    assert_eq!(d.kind, "");
    assert_eq!(third(r#"{"msg_type":"text","content":{"text":7}}"#).content, "7");
    assert_eq!(third(r#"{"msg_type":"text"}"#).content, "");
    assert_eq!(third(r#"{"msg_type":"unknown","content":{"text":"x"}}"#).content, "");
}

#[test]
fn feishu_post() {
    let d = third(
        r#"{"msg_type":"post","content":{"post":{"zh_cn":{"title":"T","content":[
            [{"tag":"text","text":"one"},{"tag":"a","text":"link","href":"http://x"}],
            {"tag":"at","user_id":"all"},
            [{"tag":"img","image_key":"k"},{"tag":"other"}]
        ]}}}}"#,
    );
    assert_eq!(d.title, "T");
    assert_eq!(d.content, "one\n[link](http://x)\n@all\n图片，image_key：k\n");
    assert_eq!(d.kind, "markdown");
    let d = third(r#"{"msg_type":"post","content":{"post":{"en_us":{"title":"E"}}}}"#);
    assert_eq!(d.title, "E");
    assert_eq!(d.content, "");
}

#[test]
fn feishu_names_of_chats_and_images() {
    let d = third(r#"{"msg_type":"share_chat","content":{"share_chat_id":"c1"}}"#);
    assert_eq!(d.content, "群名片，share_chat_id：c1");
    let d = third(r#"{"msg_type":"image","content":{"image_key":"i1"}}"#);
    assert_eq!(d.content, "图片，image_key：$i1");
}

#[test]
fn feishu_card() {
    let d = third(
        r#"{"msg_type":"interactive","content":{"card":{
            "header":{"title":"H"},
            "elements":[
                {"tag":"div","text":{"content":"body"}},
                {"tag":"action","actions":[
                    {"tag":"button","text":{"content":"go"},"url":"http://u"},
                    {"tag":"hr"},
                    {"tag":"img","img_key":"p"},
                    {"tag":"markdown","content":"**m**"},
                    {"tag":"note","elements":[{"content":"n1"},{"content":"n2"}]}
                ]},
                {"tag":"other"}
            ]}}}"#,
    );
    assert_eq!(d.title, "H");
    assert_eq!(
        d.content,
        "body\n[go](http://u)\n---------------------\n图片，image_key：p\n**m**\n备注：\nn1\nn2\n"
    );
    assert_eq!(d.kind, "markdown");
}

#[test]
fn wecom_and_dingtalk_text() {
    let d = third(r#"{"msgtype":"text","text":{"content":"hi"}}"#);
    assert_eq!(d.content, "hi");
    assert_eq!(d.kind, "text");
}

#[test]
fn wecom_and_dingtalk_markdown() {
    let d = third(r#"{"msgtype":"markdown","markdown":{"content":"**a**"}}"#);
    assert_eq!((d.title.as_str(), d.content.as_str(), d.kind.as_str()), ("", "**a**", "markdown"));
    let d = third(r#"{"msgtype":"markdown","markdown":{"title":"T","text":"**b**"}}"#);
    assert_eq!((d.title.as_str(), d.content.as_str()), ("T", "**b**"));
}

#[test]
fn wecom_other_messages() {
    let d = third(
        r#"{"msgtype":"news","news":{"articles":[{"title":"t","description":"d","picurl":"p","url":"u"}]}}"#,
    );
    assert_eq!(d.content, "## t\nd\n![](p)\n[阅读原文](u)\n\n");
    assert_eq!(third(r#"{"msgtype":"image","image":{}}"#).content, "暂不支持base64图片");
    assert_eq!(third(r#"{"msgtype":"file","file":{"media_id":"m"}}"#).content, "文件media_id：m");
    assert_eq!(third(r#"{"msgtype":"template_card"}"#).content, "暂不支持模板卡片消息");
    let d = third(r#"{"msgtype":"voice","voice":{}}"#);
    assert!(d.detected);
    assert_eq!(d.kind, "");
}

#[test]
fn dingtalk_cards() {
    let d = third(
        r#"{"msgtype":"link","link":{"title":"t","text":"x","picUrl":"p","messageUrl":"u"}}"#,
    );
    assert_eq!((d.title.as_str(), d.content.as_str()), ("t", "x\n![](p)\n[阅读原文](u)"));
    let d = third(
        r#"{"msgtype":"actionCard","actionCard":{"title":"t","text":"x","singleTitle":"s","singleURL":"u"}}"#,
    );
    assert_eq!(d.content, "x\n[s](u)");
    let d = third(
        r#"{"msgtype":"actionCard","actionCard":{"title":"t","text":"x","btns":[
            {"title":"a","actionURL":"1"},{"title":"b","actionURL":"2"}]}}"#,
    );
    assert_eq!(d.content, "x\n[a](1)\n[b](2)");
    let d = third(
        r#"{"msgtype":"feedCard","feedCard":{"links":[{"title":"t","picURL":"p","messageURL":"u"}]}}"#,
    );
    assert_eq!(d.content, "## t\n![](p)\n[阅读原文](u)\n\n");
}

#[test]
fn percent_encoding_is_undone() {
    assert_eq!(url_decode("plain"), "plain");
    assert_eq!(url_decode("a+b%20c"), "a b c");
    assert_eq!(url_decode("%E6%B5%8B"), "测");
    assert_eq!(url_decode("100%"), "100%");
    assert_eq!(url_decode("%zz%4"), "%zz%4");
    assert_eq!(url_decode("%+5x"), "\u{5}x");
    assert_eq!(url_decode("%ff"), "\u{fffd}");
    assert_eq!(url_decode("%E6%B5"), "\u{fffd}");
    assert_eq!(url_decode("测%B5é%E6x"), "测\u{fffd}é\u{fffd}x");
    assert!(is_url_decodable("%12测"));
    assert!(!is_url_decodable("%1测"));
}

#[test]
fn what_was_percent_encoded_is_read_back() {
    let mut encoded = String::new();
    for b in "测试 100% + ok".as_bytes() {
        encoded.push_str(&format!("%{:02X}", b));
    }
    assert!(is_url_decodable(&encoded));
    assert_eq!(url_decode(&encoded), "测试 100% + ok");
}

#[test]
fn the_first_of_two_pairs_counts() {
    let mut p = Params::new();
    parse_urlencoded("a=1&&b&a=2&%61=3", &mut p);
    assert_eq!(p.map.len(), 2);
    assert_eq!(p.get_str("a"), Some("1".to_string()));
    assert_eq!(p.get_str("b"), Some("".to_string()));
    assert!(!try_parse_urlencoded("c=%1测", &mut p));
    assert_eq!(p.map.len(), 2);
    assert!(try_parse_urlencoded("c=3", &mut p));
    assert_eq!(p.get_str("c"), Some("3".to_string()));
    assert!(p.get_val("d").is_none());
}
