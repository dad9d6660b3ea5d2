//! What the operations of the library come to: each law speaks of a call, by
//! what goes into it and what comes out.

use crate::auth::{install_hashed, keep_hash, verify_login, Sessions};
use crate::certs::{cert_path, certs_dir, data_path, key_path};
use crate::config::{AppConfig, ConfigStore, ConfigView};
use crate::crypto::bcrypt_matches;
use crate::ip::{ip_allowed, ipv4_match, IpAddr};
use crate::json::{written, Json, JsonTree};
use crate::login::{plan_install, InstallStep};
use crate::mqtt::{MqttHub, OfflineMsg};
use crate::packet::{encode, Inbound, Outbound};
use crate::panel::{add_key, api_keys_delete, api_keys_update, Handled};
use crate::panel_laws::{law_deleting_keeps_other_keys, law_deleting_keeps_other_values};
use crate::push_api::{
    bad_upgrade_reply, cert_download_reply, cert_reply, missing_reply, plan_push, preflight_reply,
    record_publish, PushStep,
};
use crate::push_laws::{law_published_message, one_entry};
use crate::push_log::{LogEntry, PushLog};
use crate::reply::{json_reply_of, Reply};
use crate::session::{client_id_or, keep_alive_for, out_views, Event, NextView, Session, Step};
use crate::settings::{
    api_log_clear, api_log_history, api_setting_network, api_setting_offline, api_setting_password,
    api_setting_ports, api_setting_status, api_setting_tls, plan_test, TestJob,
};
use crate::sniff::{ws_step, WsAction, WsEvent};
use crate::startup::{
    data_dir, is_started, panel_address, panel_tls_plan, tls_plan, DataDir, TlsPlan,
};
use crate::text::{
    decimal, hex, hex_text, parse_unsigned, same_text, split, split_text, strip_prefix, texts,
    trimmed, unsigned, contains_text, decimal_text,
};
use crate::text_laws::{joined, law_split_parts_make_the_text};
use crate::third::{items_of, loose_text, text_param, third_message, Params, ThirdData};
use crate::webhook_laws::law_articles_stand_one_after_the_other;
use crate::weiding::weiding;
use vstd::prelude::*;
use vstd::utf8::encode_utf8;

verus! {

broadcast use vstd::string::group_string_axioms;

// ---- messages of clients ----

/// A client's message to a configured key is handed to the router, topic and
/// payload as they came, at any quality of service; nothing is written yet.
pub proof fn law_step_hands_over_publications(
    session: &mut Session,
    qos: u8,
    topic: String,
    pkid: u16,
    payload: Vec<u8>,
    cfg: &AppConfig,
    hub: &mut MqttHub,
    r: Step,
)
    requires
        call_ensures(
            Session::step,
            (session, Event::Packet(Inbound::Publish(qos, topic, pkid, payload)), cfg, hub),
            r,
        ),
        old(session)@.phase is Ready,
        topic@.len() > 0,
        cfg@.key_set().contains(topic@),
    ensures
        r.next@ == NextView::Publish(topic@, payload@),
        r.writes@.len() == 0,
        final(hub)@ == old(hub)@,
        final(session)@.subscribed == old(session)@.subscribed,
{
    crate::session_rules::law_publication_reaches_the_router(
        old(session)@,
        qos,
        topic@,
        pkid,
        payload@,
        cfg@.key_set(),
        old(hub)@,
    );
    assert(out_views(r.writes@).len() == 0);
}

/// A client's message to anything else ends the session, and nothing is handed
/// over.
pub proof fn law_step_refuses_other_publications(
    session: &mut Session,
    qos: u8,
    topic: String,
    pkid: u16,
    payload: Vec<u8>,
    cfg: &AppConfig,
    hub: &mut MqttHub,
    r: Step,
)
    requires
        call_ensures(
            Session::step,
            (session, Event::Packet(Inbound::Publish(qos, topic, pkid, payload)), cfg, hub),
            r,
        ),
        old(session)@.phase is Ready,
        topic@.len() == 0 || !cfg@.key_set().contains(topic@),
    ensures
        r.next@ == NextView::End(Ok(())),
        r.writes@.len() == 0,
        final(hub)@ == old(hub)@,
{
    crate::session_rules::law_other_publications_disconnect(
        old(session)@,
        qos,
        topic@,
        pkid,
        payload@,
        cfg@.key_set(),
        old(hub)@,
    );
    assert(out_views(r.writes@).len() == 0);
}

/// A client that is silent for longer than twice its keep-alive and ten seconds
/// is given up; before it has connected there is no such time.
pub proof fn law_idle_seconds(session: &Session, r: Option<u64>)
    requires
        call_ensures(Session::idle_seconds, (session,), r),
    ensures
        session@.phase is Greeting ==> r is None,
        !(session@.phase is Greeting) ==> r is Some && r->Some_0 == 2 * session@.keep_alive + 10,
{
}

/// A client keeps the id it gives; the keep-alive is the one asked for, but an
/// hour for one, five or ten minutes.
pub proof fn law_client_ids_and_keep_alive(
    id: &str,
    label: &str,
    r: String,
    asked: u16,
    kept: u16,
)
    requires
        call_ensures(client_id_or, (id, label), r),
        call_ensures(keep_alive_for, (asked,), kept),
    ensures
        id@.len() > 0 ==> r@ == id@,
        id@.len() == 0 ==> r@ == "anon-"@ + label@,
        asked == 60 || asked == 300 || asked == 600 ==> kept == 3600,
        asked != 60 && asked != 300 && asked != 600 ==> kept == asked,
{
}

/// A packet is written as its frame, where that is at most a mebibyte.
pub proof fn law_encode_writes_frames(out: Outbound, r: Result<Vec<u8>, String>)
    requires
        call_ensures(encode, (out,), r),
    ensures
        crate::packet::out_frame(out@).len() <= 1048576 <==> r is Ok,
        r is Ok ==> r->Ok_0@ == crate::packet::out_frame(out@),
        r is Err ==> r->Err_0@.take(8) == "encode: "@,
{
    if r is Err {
        reveal_strlit("encode: ");
        assert(r->Err_0@.take(8) =~= "encode: "@);
    }
}

/// The hub tells how many are subscribed, and hands out what waits.
pub proof fn law_hub_tells_what_it_holds(
    hub: &MqttHub,
    topic: &str,
    n: usize,
    changed: &mut MqttHub,
    list: Vec<OfflineMsg>,
)
    requires
        call_ensures(MqttHub::online, (hub, topic), n),
        call_ensures(MqttHub::take_offline, (changed, topic), list),
    ensures
        n == hub@.count(topic@),
        list@.len() == old(changed)@.queue(topic@).len(),
        forall|i: int|
            0 <= i < list@.len() ==> (#[trigger] list@[i]).payload@ == old(changed)@.queue(
                topic@,
            )[i],
        final(changed)@.queue(topic@).len() == 0,
        final(changed)@.counts == old(changed)@.counts,
{
    let seen = crate::mqtt::payloads(list@);
    assert forall|i: int| 0 <= i < list@.len() implies (#[trigger] list@[i]).payload@ == old(changed)@.queue(topic@)[i] by {
        assert(seen[i] == list@[i].payload@);
    }
}

// ---- pushes ----

/// A webhook message that is published carries its own title and content, and
/// is logged under its title.
pub proof fn law_plan_push_publishes_webhooks(
    params: &Params,
    cfg: &AppConfig,
    now: &str,
    r: PushStep,
)
    requires
        call_ensures(plan_push, (params, cfg, now), r),
        r is Publish,
        third_message(params@).detected,
    ensures
        ({
            let job = r->Publish_0;
            let third = third_message(params@);
            &&& third.title.len() > 0 ==> job.title@ == third.title
            &&& exists|entries: Seq<(Seq<char>, JsonTree)>|
                {
                    &&& job.payload@ == encode_utf8(#[trigger] written(JsonTree::Object(entries)))
                    &&& third.title.len() > 0 ==> crate::json::lookup(entries, "title"@) == Some(
                        JsonTree::Text(third.title),
                    )
                    &&& third.content.len() > 0 ==> crate::json::lookup(entries, "content"@)
                        == Some(JsonTree::Text(third.content))
                    &&& third.kind == "markdown"@ ==> crate::json::lookup(entries, "type"@) == Some(
                        JsonTree::Text("markdown"@),
                    )
                }
            &&& job.third
        }),
{
    crate::push_laws::law_webhook_content_is_published(params@, cfg@, now@);
    law_published_message(params@, cfg@, now@);
}

/// Any other message that is published carries the title, the content, the date
/// and the type of the request.
pub proof fn law_plan_push_publishes_requests(
    params: &Params,
    cfg: &AppConfig,
    now: &str,
    r: PushStep,
)
    requires
        call_ensures(plan_push, (params, cfg, now), r),
        r is Publish,
        !third_message(params@).detected,
    ensures
        ({
            let job = r->Publish_0;
            let date = match text_param(params@, "date"@) {
                Some(d) => if d.len() > 0 {
                    d
                } else {
                    now@
                },
                None => now@,
            };
            &&& job.payload@ == encode_utf8(
                written(
                    JsonTree::Object(
                        one_entry("title"@, text_param(params@, "title"@)) + one_entry(
                            "content"@,
                            text_param(params@, "content"@),
                        ) + seq![("date"@, JsonTree::Text(date))] + one_entry(
                            "type"@,
                            text_param(params@, "type"@),
                        ),
                    ),
                ),
            )
            &&& text_param(params@, "title"@) is Some ==> job.title@ == text_param(
                params@,
                "title"@,
            )->Some_0
            &&& text_param(params@, "title"@) is None ==> job.title@.len() == 0
            &&& !job.third
        }),
{
    law_published_message(params@, cfg@, now@);
}

/// A push reaches the keys that it names and that are configured, and none is
/// left out; waiting is as it is set.
pub proof fn law_plan_push_reaches_named_keys(
    params: &Params,
    cfg: &AppConfig,
    now: &str,
    r: PushStep,
    k: Seq<char>,
)
    requires
        call_ensures(plan_push, (params, cfg, now), r),
        r is Publish,
        text_param(params@, "push_key"@) is Some,
    ensures
        ({
            let named = split(text_param(params@, "push_key"@)->Some_0, ',');
            let job = r->Publish_0;
            &&& texts(job.keys@).contains(k) <==> k.len() > 0 && named.contains(k)
            &&& texts(job.keys@).contains(k) ==> cfg@.key_set().contains(k)
            &&& job.single == (named.len() == 1)
            &&& job.offline_messages == cfg.offline_messages
            &&& job.offline_limit == cfg.offline_limit
        }),
{
    crate::push_laws::law_every_named_key_is_pushed_to(params@, cfg@, now@, k);
}

/// Answers of the public port.
pub proof fn law_public_answers(missing: Reply, bad: Reply, preflight: Reply)
    requires
        call_ensures(missing_reply, (), missing),
        call_ensures(bad_upgrade_reply, (), bad),
        call_ensures(preflight_reply, (), preflight),
    ensures
        missing@.status == 404,
        missing@.body == encode_utf8("Not Found"@),
        bad@.status == 400,
        bad@.body == encode_utf8("invalid websocket upgrade"@),
        preflight@.status == 200,
        preflight@.body == encode_utf8(""@),
        preflight@.headers.len() == 5,
        preflight@.headers[1] == ("access-control-allow-origin"@, "*"@),
{
}

/// The certificate is shown or handed out where there is one; else the reader
/// is told to make one, or that there is none.
pub proof fn law_certificate_answers(
    pem: Vec<u8>,
    shown: Reply,
    unmade: Reply,
    handed: Reply,
    none: Reply,
)
    requires
        call_ensures(cert_reply, (Some(pem),), shown),
        call_ensures(cert_reply, (None,), unmade),
        call_ensures(cert_download_reply, (Some(pem),), handed),
        call_ensures(cert_download_reply, (None,), none),
    ensures
        shown@.status == 200,
        shown@.headers == seq![("content-type"@, "application/x-x509-ca-cert"@)],
        shown@.body == pem@,
        unmade@.status == 200,
        unmade@.body == encode_utf8("请先在服务端生成自签名证书"@),
        handed@.status == 200,
        handed@.body == pem@,
        handed@.headers == seq![
            ("content-type"@, "application/x-x509-ca-cert"@),
            ("content-disposition"@, "attachment; filename=\"cert.crt\""@),
            ("cache-control"@, "no-cache"@),
        ],
        none@.status == 404,
        none@.body.len() == 0,
        none@.headers.len() == 0,
{
    assert(handed@.headers =~= seq![
        ("content-type"@, "application/x-x509-ca-cert"@),
        ("content-disposition"@, "attachment; filename=\"cert.crt\""@),
        ("cache-control"@, "no-cache"@),
    ]);
}

/// What a publication leaves behind: one message more where the router took it,
/// and an entry of the log that tells how it went.
pub proof fn law_record_publish(
    store: &mut ConfigStore,
    log: &mut PushLog,
    time: String,
    key: &str,
    title: &str,
    outcome: &Result<(), String>,
    r: (),
)
    requires
        call_ensures(record_publish, (store, log, time, key, title, outcome), r),
        old(log).entries().len() < old(log).room(),
        old(store).count() < i64::MAX,
    ensures
        *outcome is Ok ==> final(store).count() == old(store).count() + 1,
        *outcome is Err ==> final(store).count() == old(store).count(),
        final(store).config() == old(store).config(),
        final(log).entries().len() == old(log).entries().len() + 1,
        final(log).entries().last().key == key@,
        final(log).entries().last().time == time@,
        *outcome is Ok ==> final(log).entries().last().result == "success"@,
        *outcome is Err ==> final(log).entries().last().result == "failed: "@ + outcome->Err_0@,
        title@.len() <= 60 ==> final(log).entries().last().title == title@,
{
}

// ---- webhooks ----

/// News made of two lists of articles is the news of the first and then that of
/// the second, and news of one article is that article.
pub proof fn law_news_holds_every_article(
    both: &Json,
    first: &Json,
    second: &Json,
    r: ThirdData,
    p: ThirdData,
    q: ThirdData,
)
    requires
        call_ensures(weiding, ("news", Some(both)), r),
        call_ensures(weiding, ("news", Some(first)), p),
        call_ensures(weiding, ("news", Some(second)), q),
        items_of(both@.field("articles"@)) == items_of(first@.field("articles"@)) + items_of(
            second@.field("articles"@),
        ),
    ensures
        r.content@ == p.content@ + q.content@,
        r.kind@ == "markdown"@,
        r.detected,
        items_of(first@.field("articles"@)).len() == 1 ==> ({
            let t = items_of(first@.field("articles"@))[0];
            p.content@ == "## "@ + loose_text(t.field("title"@)) + "\n"@ + loose_text(
                t.field("description"@),
            ) + "\n![]("@ + loose_text(t.field("picurl"@)) + ")\n[阅读原文]("@ + loose_text(
                t.field("url"@),
            ) + ")\n\n"@
        }),
{
    let x = items_of(first@.field("articles"@));
    let y = items_of(second@.field("articles"@));
    crate::webhook_laws::law_messages_with_links(Some(both@));
    crate::webhook_laws::law_messages_with_links(Some(first@));
    crate::webhook_laws::law_messages_with_links(Some(second@));
    if x.len() == 1 {
        assert(x =~= seq![x[0]]);
        law_articles_stand_one_after_the_other(x, y, x[0]);
    } else {
        law_articles_stand_one_after_the_other(x, y, JsonTree::Null);
    }
}

// ---- push keys ----

/// Deleting a key keeps every other stored value in its order and every other
/// key configured, and changes nothing else.
pub proof fn law_delete_keeps_the_others(
    user: &Option<String>,
    params: &Params,
    cfg: &mut AppConfig,
    r: Handled,
    key: Seq<char>,
    other: Seq<char>,
)
    requires
        call_ensures(api_keys_delete, (user, params, cfg), r),
        *user is Some,
        text_param(params@, "key"@) == Some(key),
        key.len() > 0,
        other != key,
    ensures
        final(cfg)@.push_keys == old(cfg)@.push_keys.filter(
            |v: JsonTree|
                !(v == JsonTree::Text(key) || v.field("key"@) == Some(JsonTree::Text(key))),
        ),
        final(cfg)@.key_set().contains(other) <==> old(cfg)@.key_set().contains(other),
        final(cfg)@ == (ConfigView { push_keys: final(cfg)@.push_keys, ..old(cfg)@ }),
        r.save,
        r.reply@.status == 200,
{
    law_deleting_keeps_other_keys(old(cfg)@, key, other);
    law_deleting_keeps_other_values(old(cfg)@.push_keys, key);
}

/// Adding a key leaves the stored ones and puts the new one behind them, with
/// the note that is given.
pub proof fn law_add_puts_a_key_behind_the_others(
    user: &Option<String>,
    params: &Params,
    cfg: &mut AppConfig,
    chance: &[u8],
    temp_chance: &[u8],
    r: Handled,
    note: Seq<char>,
)
    requires
        call_ensures(add_key, (user, params, cfg, chance, temp_chance), r),
        *user is Some,
        text_param(params@, "note"@) == Some(note),
    ensures
        final(cfg)@.push_keys.drop_last() == old(cfg)@.push_keys,
        final(cfg)@.push_keys.len() == old(cfg)@.push_keys.len() + 1,
        final(cfg)@.push_keys.last() == JsonTree::Object(
            seq![
                ("key"@, JsonTree::Text("PUSHME-"@ + hex_text(chance@))),
                ("note"@, JsonTree::Text(note)),
                ("temp_key"@, JsonTree::Text(hex_text(temp_chance@))),
            ],
        ),
        final(cfg)@ == (ConfigView { push_keys: final(cfg)@.push_keys, ..old(cfg)@ }),
        r.save,
{
    let k = crate::panel::new_key(
        chance@,
        temp_chance@,
        crate::panel::given(params@, "note"@),
    );
    crate::panel_laws::law_new_key_stands_after_the_others(old(cfg)@, k);
    crate::panel_laws::law_new_key_is_chance(
        chance@,
        temp_chance@,
        crate::panel::given(params@, "note"@),
    );
}

/// Noting a key changes the note of that key and nothing else.
pub proof fn law_update_changes_the_note(
    user: &Option<String>,
    params: &Params,
    cfg: &mut AppConfig,
    r: Handled,
    key: Seq<char>,
    note: Seq<char>,
    i: int,
    name: Seq<char>,
)
    requires
        call_ensures(api_keys_update, (user, params, cfg), r),
        *user is Some,
        text_param(params@, "key"@) == Some(key),
        text_param(params@, "note"@) == Some(note),
        0 <= i < old(cfg)@.push_keys.len(),
        name != "note"@,
    ensures
        final(cfg)@.push_keys.len() == old(cfg)@.push_keys.len(),
        old(cfg)@.push_keys[i].field("key"@) == Some(JsonTree::Text(key)) ==> {
            &&& final(cfg)@.push_keys[i].field("note"@) == Some(JsonTree::Text(note))
            &&& final(cfg)@.push_keys[i].field(name) == old(cfg)@.push_keys[i].field(name)
        },
        old(cfg)@.push_keys[i].field("key"@) != Some(JsonTree::Text(key)) ==> final(cfg)@.push_keys[i] == old(cfg)@.push_keys[i],
        final(cfg)@ == (ConfigView { push_keys: final(cfg)@.push_keys, ..old(cfg)@ }),
        r.save,
{
    crate::panel_laws::law_note_changes_the_note_alone(old(cfg)@, key, note, i, name);
}

/// Without a session nothing of the panel changes, and the answer says so.
pub proof fn law_panel_needs_a_session(
    params: &Params,
    a: &mut AppConfig,
    p: Handled,
    b: &mut AppConfig,
    q: Handled,
    c: &mut AppConfig,
    s: Handled,
    d: &mut AppConfig,
    t: Handled,
)
    requires
        call_ensures(api_keys_delete, (&None::<String>, params, a), p),
        call_ensures(api_keys_update, (&None::<String>, params, b), q),
        call_ensures(api_setting_tls, (&None::<String>, params, c), s),
        call_ensures(api_setting_offline, (&None::<String>, params, d), t),
    ensures
        final(a)@ == old(a)@ && !p.save && p.reply@.status == 401,
        final(b)@ == old(b)@ && !q.save && q.reply@.status == 401,
        final(c)@ == old(c)@ && !s.save && s.reply@.status == 401,
        final(d)@ == old(d)@ && !t.save && t.reply@.status == 401,
{
}

/// Nor do the other settings change, and no test is sent.
pub proof fn law_settings_need_a_session(
    params: &Params,
    a: &mut AppConfig,
    p: Handled,
    b: &mut AppConfig,
    q: Handled,
    c: &mut AppConfig,
    s: Handled,
    d: &mut AppConfig,
    t: Handled,
    cfg: &AppConfig,
    now: &str,
    test: Result<TestJob, Reply>,
)
    requires
        call_ensures(api_setting_network, (&None::<String>, params, a), p),
        call_ensures(api_setting_ports, (&None::<String>, params, b), q),
        call_ensures(api_setting_status, (&None::<String>, params, c), s),
        call_ensures(api_setting_password, (&None::<String>, params, d), t),
        call_ensures(plan_test, (&None::<String>, params, cfg, now), test),
    ensures
        final(a)@ == old(a)@ && !p.save && p.reply@.status == 401,
        final(b)@ == old(b)@ && !q.save && q.reply@.status == 401,
        final(c)@ == old(c)@ && !s.save && s.reply@.status == 401,
        final(d)@ == old(d)@ && !t.save && t.reply@.status == 401,
        test is Err && test->Err_0@.status == 401,
{
}

// ---- settings ----

/// Waiting messages are kept after a request with `enabled` as `true`, `1` or
/// `on`, and not after any other; the limit is the one given.
pub proof fn law_offline_request(
    user: &Option<String>,
    params: &Params,
    cfg: &mut AppConfig,
    r: Handled,
)
    requires
        call_ensures(api_setting_offline, (user, params, cfg), r),
        *user is Some,
    ensures
        final(cfg)@.offline_messages <==> text_param(params@, "enabled"@) == Some("true"@)
            || text_param(params@, "enabled"@) == Some("1"@) || text_param(params@, "enabled"@)
            == Some("on"@),
        text_param(params@, "limit"@) is None ==> final(cfg)@.offline_limit == 50,
        forall|n: nat|
            text_param(params@, "limit"@) is Some && #[trigger] unsigned(
                text_param(params@, "limit"@)->Some_0,
            ) == Some(n) && 1 <= n <= 1000 ==> final(cfg)@.offline_limit == n,
        final(cfg)@ == (ConfigView {
            offline_messages: final(cfg)@.offline_messages,
            offline_limit: final(cfg)@.offline_limit,
            ..old(cfg)@
        }),
        r.save,
{
    reveal_strlit("true");
    reveal_strlit("1");
    reveal_strlit("on");
}

/// The panel is public after a request with `public_panel` as `true`, `1` or
/// `on`, not after one with any other text, and as before after one without.
pub proof fn law_network_request(
    user: &Option<String>,
    params: &Params,
    cfg: &mut AppConfig,
    r: Handled,
)
    requires
        call_ensures(api_setting_network, (user, params, cfg), r),
        *user is Some,
    ensures
        text_param(params@, "public_panel"@) is Some ==> (final(cfg)@.public_panel <==> text_param(
            params@,
            "public_panel"@,
        ) == Some("true"@) || text_param(params@, "public_panel"@) == Some("1"@) || text_param(
            params@,
            "public_panel"@,
        ) == Some("on"@)),
        text_param(params@, "public_panel"@) is None ==> final(cfg)@.public_panel == old(cfg)@.public_panel,
        text_param(params@, "panel_bind"@) is Some && trimmed(
            text_param(params@, "panel_bind"@)->Some_0,
        ).len() > 0 ==> final(cfg)@.panel_bind == trimmed(
            text_param(params@, "panel_bind"@)->Some_0,
        ),
        text_param(params@, "panel_bind"@) is None ==> final(cfg)@.panel_bind == old(cfg)@.panel_bind,
        text_param(params@, "panel_port"@) is None ==> final(cfg)@.panel_port == old(cfg)@.panel_port,
        forall|n: nat|
            text_param(params@, "panel_port"@) is Some && #[trigger] unsigned(
                text_param(params@, "panel_port"@)->Some_0,
            ) == Some(n) && 1 <= n <= 65535 ==> final(cfg)@.panel_port == n,
        final(cfg)@ == (ConfigView {
            panel_bind: final(cfg)@.panel_bind,
            public_panel: final(cfg)@.public_panel,
            panel_port: final(cfg)@.panel_port,
            ..old(cfg)@
        }),
        r.save,
{
}

/// The ports become those that are given and are ports.
pub proof fn law_ports_request(
    user: &Option<String>,
    params: &Params,
    cfg: &mut AppConfig,
    r: Handled,
)
    requires
        call_ensures(api_setting_ports, (user, params, cfg), r),
        *user is Some,
    ensures
        forall|n: nat|
            text_param(params@, "server_port"@) is Some && #[trigger] unsigned(
                text_param(params@, "server_port"@)->Some_0,
            ) == Some(n) && 1 <= n <= 65535 ==> final(cfg)@.server_port == n,
        forall|n: nat|
            text_param(params@, "panel_port"@) is Some && #[trigger] unsigned(
                text_param(params@, "panel_port"@)->Some_0,
            ) == Some(n) && 1 <= n <= 65535 ==> final(cfg)@.panel_port == n,
        text_param(params@, "server_port"@) is None ==> final(cfg)@.server_port == old(cfg)@.server_port,
        text_param(params@, "panel_port"@) is None ==> final(cfg)@.panel_port == old(cfg)@.panel_port,
        final(cfg)@ == (ConfigView {
            server_port: final(cfg)@.server_port,
            panel_port: final(cfg)@.panel_port,
            ..old(cfg)@
        }),
{
}

/// TLS and the status become what is given, where that is one of their values,
/// and stay otherwise.
pub proof fn law_tls_and_status_requests(
    user: &Option<String>,
    params: &Params,
    a: &mut AppConfig,
    p: Handled,
    b: &mut AppConfig,
    q: Handled,
    s: Seq<char>,
)
    requires
        call_ensures(api_setting_tls, (user, params, a), p),
        call_ensures(api_setting_status, (user, params, b), q),
        *user is Some,
    ensures
        text_param(params@, "tls"@) == Some(s) && (s == "none"@ || s == "public"@ || s == "self"@)
            ==> final(a)@ == (ConfigView { tls: s, ..old(a)@ }) && p.save,
        text_param(params@, "tls"@) == Some(s) && s != "none"@ && s != "public"@ && s != "self"@
            ==> final(a)@ == old(a)@ && !p.save && p.reply@.status == 400,
        text_param(params@, "status"@) == Some(s) && (s == "start"@ || s == "stop"@) ==> final(b)@ == (ConfigView { status: s, ..old(b)@ }) && q.save,
        text_param(params@, "status"@) == Some(s) && s != "start"@ && s != "stop"@ ==> final(b)@
            == old(b)@ && !q.save && q.reply@.status == 400,
{
}

/// A new password needs six bytes and the old one, and then the new one is what
/// counts; nothing but the password changes.
pub proof fn law_password_request(
    user: &Option<String>,
    params: &Params,
    cfg: &mut AppConfig,
    r: Handled,
    before: Seq<char>,
    new: Seq<char>,
)
    requires
        call_ensures(api_setting_password, (user, params, cfg), r),
        *user is Some,
        text_param(params@, "old_password"@) == Some(before),
        text_param(params@, "new_password"@) == Some(new),
    ensures
        encode_utf8(new).len() < 6 ==> final(cfg)@ == old(cfg)@ && !r.save && r.reply@.status
            == 400,
        encode_utf8(new).len() >= 6 && !crate::auth::login_ok(old(cfg)@, user->Some_0@, before)
            ==> final(cfg)@ == old(cfg)@ && !r.save && r.reply@.status == 403,
        r.reply@.status == 200 ==> {
            &&& bcrypt_matches(new, final(cfg)@.pass_hash)
            &&& final(cfg)@.password == crate::auth::md5_pushme_of(new)
            &&& r.save
        },
        final(cfg)@ == (ConfigView {
            pass_hash: final(cfg)@.pass_hash,
            password: final(cfg)@.password,
            ..old(cfg)@
        }),
{
}

/// A test message to a configured key holds what is given; any other is refused.
pub proof fn law_test_request(
    user: &Option<String>,
    params: &Params,
    cfg: &AppConfig,
    now: &str,
    r: Result<TestJob, Reply>,
    key: Seq<char>,
)
    requires
        call_ensures(plan_test, (user, params, cfg, now), r),
        *user is Some,
        text_param(params@, "key"@) == Some(key),
    ensures
        key.len() > 0 && cfg@.key_set().contains(key) <==> r is Ok,
        r is Ok ==> r->Ok_0.key@ == key,
        r is Ok && text_param(params@, "title"@) is Some ==> r->Ok_0.title@ == text_param(
            params@,
            "title"@,
        )->Some_0,
        r is Err ==> r->Err_0@.status == 400,
{
}

/// The log is shown to a user, newest last, and cleared for one; anyone else is
/// refused.
pub proof fn law_log_requests(
    user: &Option<String>,
    log: &PushLog,
    r: Reply,
    cleared: &mut PushLog,
    s: Reply,
)
    requires
        call_ensures(api_log_history, (user, None, log), r),
        call_ensures(api_log_clear, (user, cleared), s),
        log.entries().len() <= 100,
    ensures
        *user is None ==> r@.status == 401 && s@.status == 401 && final(cleared).entries() == old(cleared).entries(),
        *user is Some ==> s@.status == 200 && final(cleared).entries().len() == 0,
        *user is Some ==> r@ == json_reply_of(
            200,
            JsonTree::Object(
                seq![
                    ("logs"@, JsonTree::Array(crate::settings::log_trees(log.entries()))),
                    ("ok"@, JsonTree::Bool(true)),
                ],
            ),
        ),
{
}

/// The log keeps entries in order, and shows the newest first or the last ones.
pub proof fn law_log_keeps_entries(
    log: &mut PushLog,
    time: String,
    key: &str,
    title: &str,
    result: &str,
    r: (),
    seen: &PushLog,
    recent: Vec<LogEntry>,
    n: usize,
    last: Vec<LogEntry>,
)
    requires
        call_ensures(PushLog::push_at, (log, time, key, title, result), r),
        call_ensures(PushLog::recent, (seen,), recent),
        call_ensures(PushLog::recent_n, (seen, n), last),
        old(log).entries().len() < old(log).room(),
    ensures
        final(log).entries().drop_last() == old(log).entries(),
        final(log).entries().last().key == key@,
        final(log).entries().last().time == time@,
        final(log).entries().last().result == result@,
        recent@.len() == seen.entries().len(),
        forall|i: int|
            0 <= i < recent@.len() ==> (#[trigger] recent@[i])@ == seen.entries()[recent@.len() - 1
                - i],
        last@.len() == if seen.entries().len() < n {
            seen.entries().len()
        } else {
            n as nat
        },
        forall|i: int|
            0 <= i < last@.len() ==> (#[trigger] last@[i])@ == seen.entries()[seen.entries().len()
                - last@.len() + i],
{
    let shown = crate::push_log::log_views(recent@);
    let ended = crate::push_log::log_views(last@);
    assert(shown.len() == recent@.len());
    assert(ended.len() == last@.len());
    assert(shown == seen.entries().reverse());
    assert(ended == crate::push_log::last_n(seen.entries(), n as nat));
    assert(final(log).entries().drop_last() =~= old(log).entries());
    assert forall|i: int| 0 <= i < recent@.len() implies (#[trigger] recent@[i])@ == seen.entries()[
    recent@.len() - 1 - i] by {
        assert(shown[i] == recent@[i]@);
    }
    assert forall|i: int| 0 <= i < last@.len() implies (#[trigger] last@[i])@ == seen.entries()[
    seen.entries().len() - last@.len() + i] by {
        assert(ended[i] == last@[i]@);
    }
}

// ---- installing and logging in ----

/// An installation needs a name and a password and comes once; it keeps the
/// name and what the password is checked by.
pub proof fn law_install_request(
    params: &Params,
    cfg: &mut AppConfig,
    r: InstallStep,
    user: Seq<char>,
    password: Seq<char>,
)
    requires
        call_ensures(plan_install, (params, cfg), r),
        text_param(params@, "user"@) == Some(user),
        text_param(params@, "password"@) == Some(password),
    ensures
        old(cfg)@.installed() ==> r is Answer && r->Answer_0@.status == 403 && final(cfg)@ == old(cfg)@,
        trimmed(user).len() == 0 || password.len() == 0 ==> r is Answer && final(cfg)@ == old(cfg)@,
        r is Save ==> {
            &&& r->Save_0@ == trimmed(user)
            &&& final(cfg)@.admin_user == trimmed(user)
            &&& bcrypt_matches(password, final(cfg)@.pass_hash)
            &&& final(cfg)@.user == crate::auth::md5_pushme_of(trimmed(user))
            &&& final(cfg)@.password == crate::auth::md5_pushme_of(password)
        },
        r is Answer ==> final(cfg)@ == old(cfg)@,
        final(cfg)@ == (ConfigView {
            admin_user: final(cfg)@.admin_user,
            pass_hash: final(cfg)@.pass_hash,
            user: final(cfg)@.user,
            password: final(cfg)@.password,
            ..old(cfg)@
        }),
{
}

/// A hash that could be made is kept, with the digests beside it; one that could
/// not changes nothing.
pub proof fn law_hashes_are_kept(
    a: &mut AppConfig,
    username: &str,
    password: &str,
    hash: String,
    p: Result<(), String>,
    b: &mut AppConfig,
    q: (),
    c: &mut AppConfig,
    e: String,
    s: Result<(), String>,
)
    requires
        call_ensures(install_hashed, (a, username, password, Ok::<String, String>(hash)), p),
        call_ensures(keep_hash, (b, Ok::<String, String>(hash)), q),
        call_ensures(install_hashed, (c, username, password, Err::<String, String>(e)), s),
    ensures
        p is Ok,
        final(a)@.admin_user == username@,
        final(a)@.pass_hash == hash@,
        final(b)@ == (ConfigView { pass_hash: hash@, ..old(b)@ }),
        s is Err && s->Err_0@ == e@,
        final(c)@ == old(c)@,
{
}

/// A login succeeds just for the administrator's name and password.
pub proof fn law_verify_login(
    cfg: &mut AppConfig,
    username: &str,
    password: &str,
    r: Result<(), &'static str>,
)
    requires
        call_ensures(verify_login, (cfg, username, password), r),
    ensures
        old(cfg)@.admin_user.len() > 0 && old(cfg)@.pass_hash.len() > 0 ==> (r is Ok <==> username@
            == old(cfg)@.admin_user && bcrypt_matches(password@, old(cfg)@.pass_hash)),
        !old(cfg)@.installed() ==> r is Err && r->Err_0@ == "系统未安装"@,
        r is Err ==> final(cfg)@ == old(cfg)@,
        final(cfg)@ == (ConfigView { pass_hash: final(cfg)@.pass_hash, ..old(cfg)@ }),
{
}

/// A token that is issued stands for its user for a week.
pub proof fn law_tokens_stand_for_a_week(
    sessions: &Sessions,
    user: &str,
    now: u64,
    token: String,
    text: &str,
    later: u64,
    r: Option<String>,
)
    requires
        now + 604800 <= u64::MAX,
        user@.len() > 0,
        call_ensures(Sessions::issue_at, (sessions, user, now), token),
        call_ensures(Sessions::verify_at, (sessions, text, later), r),
        text@ == token@,
    ensures
        later < now + 604800 ==> r is Some && r->Some_0@ == user@,
        later >= now + 604800 ==> r is None,
{
    crate::auth::law_issued_token_stands_for_user(
        sessions.secret(),
        user@,
        (now + 604800) as u64,
        later,
    );
}

// ---- starting ----

/// How the service starts: TLS from its own files or from made ones, the status
/// that stops it, and the address of the panel.
pub proof fn law_starting(
    tls: &str,
    a: TlsPlan,
    b: TlsPlan,
    status: &str,
    started: bool,
    bind: &str,
    port: u16,
    address: String,
)
    requires
        call_ensures(tls_plan, (tls,), a),
        call_ensures(panel_tls_plan, (tls,), b),
        call_ensures(is_started, (status,), started),
        call_ensures(panel_address, (bind, port), address),
    ensures
        tls@ == "self"@ ==> a == TlsPlan::SelfSigned,
        tls@ == "public"@ ==> a == TlsPlan::Stored,
        tls@ != "self"@ && tls@ != "public"@ ==> a == TlsPlan::Plain,
        tls@ == "tls"@ <==> b == TlsPlan::SelfSigned,
        tls@ != "tls"@ <==> b == TlsPlan::Plain,
        started <==> status@ != "stop"@,
        address@ == bind@ + ":"@ + decimal(port as nat),
{
    reveal_strlit("self");
    reveal_strlit("public");
    assert("self"@.len() != "public"@.len());
}

/// The data directory is the text after the first `--data`.
pub proof fn law_data_directory(args: &Vec<String>, r: DataDir, at: int)
    requires
        call_ensures(data_dir, (args,), r),
        0 <= at < args@.len(),
        args@[at]@ == "--data"@,
        forall|i: int| 0 <= i < at ==> (#[trigger] args@[i])@ != "--data"@,
    ensures
        r is Given,
        at + 1 < args@.len() ==> r->Given_0@ == args@[at + 1]@,
        at + 1 == args@.len() ==> r->Given_0@.len() == 0,
{
    let all = texts(args@);
    assert forall|i: int| 0 <= i < at implies (#[trigger] all[i]) != "--data"@ by {
        assert(args@[i]@ != "--data"@);
    }
    crate::auth_laws::law_first_data_flag_counts(all, at);
}

/// The files of the service stand in `config` under the data directory.
pub proof fn law_file_names(
    dir: &str,
    certs: String,
    cert: String,
    key: String,
    data: String,
)
    requires
        call_ensures(certs_dir, (dir,), certs),
        call_ensures(cert_path, (dir,), cert),
        call_ensures(key_path, (dir,), key),
        call_ensures(data_path, (dir,), data),
        dir@.len() > 0,
        dir@.last() != '/',
    ensures
        certs@ == dir@ + "/config/certs"@,
        cert@ == dir@ + "/config/certs/cert.crt"@,
        key@ == dir@ + "/config/certs/private.key"@,
        data@ == dir@ + "/config/data.json"@,
{
    reveal_strlit("/");
    reveal_strlit("config");
    reveal_strlit("/config/certs");
    reveal_strlit("cert.crt");
    reveal_strlit("private.key");
    reveal_strlit("data.json");
    reveal_strlit("/config/certs/cert.crt");
    reveal_strlit("/config/certs/private.key");
    reveal_strlit("/config/data.json");
    crate::auth_laws::law_certificates_stand_under_the_data(dir@, "config"@);
    assert(certs@.last() == 's');
    assert((dir@ + "/"@ + "config"@).last() == 'g');
    assert(cert@ =~= dir@ + "/config/certs/cert.crt"@);
    assert(key@ =~= dir@ + "/config/certs/private.key"@);
    assert(data@ =~= dir@ + "/config/data.json"@);
}

/// The store hands out its configuration with the count of messages, and keeps
/// a new one only where it was saved.
pub proof fn law_store_keeps_what_was_saved(
    store: &ConfigStore,
    draft: AppConfig,
    a: &mut ConfigStore,
    cfg: AppConfig,
    p: Result<(), String>,
    b: &mut ConfigStore,
    e: String,
    q: Result<(), String>,
)
    requires
        call_ensures(ConfigStore::draft, (store,), draft),
        call_ensures(ConfigStore::update, (a, cfg, Ok::<(), String>(())), p),
        call_ensures(ConfigStore::update, (b, cfg, Err::<(), String>(e)), q),
    ensures
        draft@ == (ConfigView { message_count: store.count(), ..store.config() }),
        p is Ok && final(a).config() == cfg@ && final(a).count() == old(a).count(),
        q is Err && final(b).config() == old(b).config() && final(b).count() == old(b).count(),
{
}

// ---- connections ----

/// What a WebSocket carries goes to the session, and what the session sends goes
/// into frames; either end closes both.
pub proof fn law_sockets_carry_sessions(
    b: Vec<u8>,
    fed: WsAction,
    framed: WsAction,
    stays: WsAction,
    closed: WsAction,
    over: WsAction,
)
    requires
        call_ensures(ws_step, (WsEvent::Binary(b),), fed),
        call_ensures(ws_step, (WsEvent::Send(b),), framed),
        call_ensures(ws_step, (WsEvent::Other,), stays),
        call_ensures(ws_step, (WsEvent::Closed,), closed),
        call_ensures(ws_step, (WsEvent::Over,), over),
    ensures
        fed == WsAction::Feed(b),
        framed == WsAction::Frame(b),
        stays == WsAction::Stay,
        closed == WsAction::Close,
        over == WsAction::Close,
{
}

/// An empty list lets every address in.
pub proof fn law_addresses_are_let_in(
    allowed: &Vec<String>,
    ip: &IpAddr,
    r: bool,
    a: u32,
    net: u32,
    bits: u32,
    m: bool,
)
    requires
        call_ensures(ip_allowed, (allowed, ip), r),
        bits <= 32,
        call_ensures(ipv4_match, (a, net, bits), m),
    ensures
        allowed@.len() == 0 ==> r,
        allowed@.len() == 1 && crate::ip::cidr_of(trimmed(allowed@[0]@)) is None ==> (r
            <==> crate::ip::ip_of(trimmed(allowed@[0]@)) == Some(ip@)),
        m <==> a as nat / vstd::arithmetic::power2::pow2((32 - bits) as nat) == net as nat
            / vstd::arithmetic::power2::pow2((32 - bits) as nat),
{
    let list = texts(allowed@);
    if allowed@.len() == 1 {
        assert(list =~= seq![allowed@[0]@]);
        crate::ip_laws::law_lists_allow_addresses(list, list, list[0], ip@, a, net, bits);
    }
    crate::ip_laws::law_leading_bits(a, bits);
    crate::ip_laws::law_leading_bits(net, bits);
}

// ---- text ----

/// Splitting, trimming and comparing.
pub proof fn law_text_calls(
    s: &str,
    sep: char,
    parts: Vec<String>,
    t: &str,
    same: bool,
    inside: bool,
    rest: Option<String>,
)
    requires
        call_ensures(split_text, (s, sep), parts),
        call_ensures(same_text, (s, t), same),
        call_ensures(contains_text, (s, t), inside),
        call_ensures(strip_prefix, (s, t), rest),
    ensures
        joined(texts(parts@), sep) == s@,
        forall|i: int| 0 <= i < parts@.len() ==> !(#[trigger] parts@[i])@.contains(sep),
        same <==> s@ == t@,
        inside <==> exists|a: Seq<char>, b: Seq<char>| s@ == #[trigger] (a + t@ + b),
        rest is Some ==> s@ == t@ + rest->Some_0@,
        rest is None ==> forall|b: Seq<char>| s@ != #[trigger] (t@ + b),
{
    law_split_parts_make_the_text(s@, sep);
    assert forall|i: int| 0 <= i < parts@.len() implies !(#[trigger] parts@[i])@.contains(sep) by {
        assert(texts(parts@)[i] == parts@[i]@);
    }
    crate::text_laws::law_text_inside(s@, t@);
    if rest is Some {
        crate::text_laws::law_prefix_and_rest(s@, t@, rest->Some_0@);
    } else {
        assert forall|b: Seq<char>| s@ != #[trigger] (t@ + b) by {
            crate::text_laws::law_prefix_and_rest(s@, t@, b);
        }
    }
}

/// Numbers are written and read back, and bytes in hexadecimal.
pub proof fn law_number_calls(
    n: u64,
    text: String,
    s: &str,
    max: u64,
    r: Option<u64>,
    b: &[u8],
    h: String,
)
    requires
        call_ensures(decimal_text, (n,), text),
        call_ensures(parse_unsigned, (s, max), r),
        call_ensures(hex, (b,), h),
    ensures
        unsigned(text@) == Some(n as nat),
        s@ == text@ && n <= max ==> r == Some(n),
        s@ == text@ && n > max ==> r is None,
        h@.len() == 2 * b@.len(),
{
    crate::text::lemma_decimal_reads_back(n as nat);
}

} // verus!
