//! What further calls of the library come to: requests of a browser, the login,
//! connections and certificates.

use crate::auth::{constant_time_eq, install, LoginGuard, Sessions};
use crate::certs::{cert_names, ensure_self_signed, files_exist, CertPair};
use crate::config::{push_key_of, AppConfig, ConfigStore, ConfigView};
use crate::feishu::feishu;
use crate::ip::{parse_ipv4, same_ip, IpAddr};
use crate::ip_laws::dotted;
use crate::json::{Json, JsonTree};
use crate::login::{
    finish_install_at, index, install_page, login_page, login_submit_at, welcome_of,
};
use crate::mqtt::MqttHub;
use crate::packet::{take_packet, Control, Inbound, OutView, Taken};
use crate::pages::{install_error_of, install_page_of, login_page_of};
use crate::panel::{api_keys_list, logout, require_login, session_user_at, Handled};
use crate::push_api::{
    is_ws_request, message_payload, parse_params, push_reply, route, PushJob, Route,
};
use crate::push_log::PushLog;
use crate::reply::{html_reply_of, json_reply_of, redirect_of, Reply};
use crate::session::{out_views, Event, NextView, Session, Step};
use crate::settings::{api_status, cert_outcome, cert_request, record_test, set_password, TestJob};
use crate::sniff::{sniff, ws_frame, Protocol, SniffedStream, WsIo};
use crate::text::{html_escape, lower_text, replace_text, same_bytes, texts, trim_text, trimmed};
use crate::third::{detect, text_param, Params, ThirdData};
use crate::weiding::weiding;
use vstd::prelude::*;
use vstd::utf8::encode_utf8;

verus! {

broadcast use vstd::string::group_string_axioms;

// ---- sessions of clients ----

/// A client that connects with MQTT 3.1.1 is registered under its id, and
/// accepted once it is.
pub proof fn law_step_registers_and_accepts(
    a: &mut Session,
    keep_alive: u16,
    id: String,
    cfg: &AppConfig,
    h: &mut MqttHub,
    p: Step,
    b: &mut Session,
    k: &mut MqttHub,
    q: Step,
)
    requires
        call_ensures(
            Session::step,
            (a, Event::Packet(Inbound::Connect(true, keep_alive, id)), cfg, h),
            p,
        ),
        call_ensures(Session::step, (b, Event::Done(Ok::<(), String>(())), cfg, k), q),
        old(a)@.phase is Greeting,
        old(b)@ == final(a)@,
    ensures
        p.next@ == NextView::Register(id@),
        p.writes@.len() == 0,
        q.next@ == NextView::Wait,
        q.writes@.len() == 1,
        q.writes@[0]@ == OutView::Control(Control::Accepted),
        final(b)@.phase is Ready,
        keep_alive != 60 && keep_alive != 300 && keep_alive != 600 ==> final(b)@.keep_alive
            == keep_alive,
        final(h)@ == old(h)@,
        final(k)@ == old(k)@,
{
    assert(out_views(p.writes@).len() == 0);
    assert(out_views(q.writes@).len() == 1);
    assert(out_views(q.writes@)[0] == q.writes@[0]@);
}

/// A ping is answered; the release of a packet id is completed; a client that
/// leaves ends well.
pub proof fn law_step_answers_packets(
    a: &mut Session,
    b: &mut Session,
    c: &mut Session,
    pkid: u16,
    cfg: &AppConfig,
    h: &mut MqttHub,
    i: &mut MqttHub,
    j: &mut MqttHub,
    p: Step,
    q: Step,
    r: Step,
)
    requires
        call_ensures(Session::step, (a, Event::Packet(Inbound::PingReq), cfg, h), p),
        call_ensures(Session::step, (b, Event::Packet(Inbound::PubRel(pkid)), cfg, i), q),
        call_ensures(Session::step, (c, Event::Packet(Inbound::Disconnect), cfg, j), r),
        old(a)@.phase is Ready,
        old(b)@.phase is Ready,
        old(c)@.phase is Ready,
    ensures
        p.next@ == NextView::Wait && p.writes@.len() == 1 && p.writes@[0]@ == OutView::Control(
            Control::PingResp,
        ),
        q.next@ == NextView::Wait && q.writes@.len() == 1 && q.writes@[0]@ == OutView::Control(
            Control::PubComp(pkid),
        ),
        r.next@ == NextView::End(Ok(())) && r.writes@.len() == 0,
{
    assert(out_views(p.writes@).len() == 1);
    assert(out_views(p.writes@)[0] == p.writes@[0]@);
    assert(out_views(q.writes@).len() == 1);
    assert(out_views(q.writes@)[0] == q.writes@[0]@);
    assert(out_views(r.writes@).len() == 0);
}

/// A message of the router is delivered to the client as it is.
pub proof fn law_step_delivers(
    session: &mut Session,
    topic: Vec<u8>,
    payload: Vec<u8>,
    cfg: &AppConfig,
    hub: &mut MqttHub,
    r: Step,
)
    requires
        call_ensures(Session::step, (session, Event::Forward(topic, payload), cfg, hub), r),
        vstd::utf8::valid_utf8(topic@),
    ensures
        r.next@ == NextView::Wait,
        r.writes@.len() == 1,
        r.writes@[0]@ is Deliver,
        r.writes@[0]@->Deliver_0 == vstd::utf8::decode_utf8(topic@),
        r.writes@[0]@->Deliver_1 == if old(session)@.pkid == 65535 {
            1
        } else {
            old(session)@.pkid + 1
        },
        r.writes@[0]@->Deliver_2 == payload@,
        final(hub)@ == old(hub)@,
{
    crate::session_rules::law_forwarded_messages_are_delivered(
        old(session)@,
        topic@,
        payload@,
        cfg@.key_set(),
        old(hub)@,
    );
    assert(out_views(r.writes@).len() == 1);
    assert(out_views(r.writes@)[0] == r.writes@[0]@);
}

/// A session that begins greets its client, and one that is closed counts at
/// none of its topics.
pub proof fn law_sessions_begin_and_close(
    fresh: Session,
    session: Session,
    hub: &mut MqttHub,
    r: (),
    t: Seq<char>,
)
    requires
        call_ensures(Session::new, (), fresh),
        call_ensures(Session::close, (session, hub), r),
        session@.subscribed.contains(t) ==> old(hub)@.count(t) > 0,
    ensures
        fresh@.phase is Greeting,
        fresh@.subscribed == Set::<Seq<char>>::empty(),
        session@.subscribed.contains(t) ==> final(hub)@.count(t) == old(hub)@.count(t) - 1,
        !session@.subscribed.contains(t) ==> final(hub)@.count(t) == old(hub)@.count(t),
        final(hub)@.queue(t) == old(hub)@.queue(t),
{
}

/// The hub keeps a message for a topic that nobody is subscribed to, and counts
/// subscriptions and connections.
pub proof fn law_hub_counts_and_keeps(
    a: &mut MqttHub,
    topic: &str,
    payload: &[u8],
    limit: usize,
    p: (),
    b: &mut MqttHub,
    q: (),
    c: &mut MqttHub,
    r: (),
    d: &mut MqttHub,
    s: (),
)
    requires
        call_ensures(MqttHub::keep_offline, (a, topic, payload, true, limit), p),
        call_ensures(MqttHub::subscribe_topic, (b, topic), q),
        call_ensures(MqttHub::unsubscribe_topic, (c, topic), r),
        call_ensures(MqttHub::connected, (d,), s),
        limit > 0,
        old(b)@.count(topic@) < usize::MAX,
        old(d)@.connections < i64::MAX,
    ensures
        old(a)@.count(topic@) == 0 && old(a)@.queue(topic@).len() < limit ==> final(a)@.queue(
            topic@,
        ) == old(a)@.queue(topic@).push(payload@),
        old(a)@.count(topic@) > 0 ==> final(a)@ == old(a)@,
        final(b)@.count(topic@) == old(b)@.count(topic@) + 1,
        old(c)@.count(topic@) > 0 ==> final(c)@.count(topic@) == old(c)@.count(topic@) - 1,
        final(d)@.connections == old(d)@.connections + 1,
        final(d)@.counts == old(d)@.counts,
{
}

// ---- connections ----

/// Eight bytes tell the protocol.
pub proof fn law_sniff_tells_the_protocol(b: &[u8], r: Protocol)
    requires
        call_ensures(sniff, (b,), r),
    ensures
        b@.len() < 8 <==> r == Protocol::Unsettled,
        r == Protocol::Mqtt <==> b@.len() >= 8 && b@[0] == 0x10 && b@[4] == 'M' as u8 && b@[5]
            == 'Q' as u8 && b@[6] == 'T' as u8 && b@[7] == 'T' as u8,
        b@.len() >= 8 && b@.take(4) == seq!['G' as u8, 'E' as u8, 'T' as u8, ' ' as u8] ==> r
            == Protocol::Http,
        b@.len() >= 8 && b@.take(4) == seq!['P' as u8, 'O' as u8, 'S' as u8, 'T' as u8] ==> r
            == Protocol::Http,
{
    crate::wire_laws::law_first_bytes_tell_the_protocol(b@, b@.skip(4));
    if b@.len() >= 8 {
        assert(b@ =~= b@.take(4) + b@.skip(4));
    }
}

/// A stream that was looked into gives its first bytes out again, and a socket
/// the rest of a frame; nothing is lost.
pub proof fn law_streams_lose_nothing(
    inner: u8,
    prefix: Vec<u8>,
    stream: SniffedStream<u8>,
    io: &mut WsIo,
    chunk: Vec<u8>,
    room: usize,
    head: Vec<u8>,
    again: &mut WsIo,
    rest: Option<Vec<u8>>,
)
    requires
        call_ensures(SniffedStream::<u8>::new, (inner, prefix), stream),
        call_ensures(WsIo::read_frame, (io, chunk, room), head),
        call_ensures(WsIo::read_pending, (again, room), rest),
    ensures
        stream.pending() == prefix@,
        stream.stream() == inner,
        head@ + final(io).waiting() == chunk@,
        head@.len() <= room,
        rest is Some ==> rest->Some_0@ + final(again).waiting() == old(again).waiting(),
        rest is None ==> old(again).waiting().len() == 0,
        rest is Some && room > 0 ==> rest->Some_0@.len() > 0,
{
    crate::wire_laws::law_room_parts_the_bytes(chunk@, room as nat);
    crate::wire_laws::law_room_parts_the_bytes(old(again).waiting(), room as nat);
}

/// A frame holds the first bytes there are, sixteen kibibytes at most.
pub proof fn law_frames_hold_bytes(buf: &[u8], r: Vec<u8>)
    requires
        call_ensures(ws_frame, (buf,), r),
    ensures
        buf@.len() <= 16384 ==> r@ == buf@,
        buf@.len() > 16384 ==> r@ == buf@.take(16384),
{
}

// ---- pushes ----

/// Where a request goes, and that a WebSocket is asked for.
pub proof fn law_route(
    root: bool,
    method: &str,
    connection: &str,
    upgrade: &str,
    r: Route,
    ws: bool,
)
    requires
        call_ensures(route, (root, method, connection, upgrade), r),
        call_ensures(is_ws_request, (connection, upgrade), ws),
    ensures
        root && method@ == "OPTIONS"@ ==> r == Route::Preflight,
        !(root && method@ == "OPTIONS"@) && ws ==> r == Route::Socket,
        root && method@ != "OPTIONS"@ && !ws ==> r == Route::Push,
        !root && !ws ==> r == Route::Missing,
        ws ==> crate::text::lowered(upgrade@) == "websocket"@,
        connection@.len() == 0 ==> !ws,
        crate::text::lowered(connection@) == "upgrade"@ && crate::text::lowered(upgrade@)
            == "websocket"@ ==> ws,
{
    crate::push_laws::law_requests_are_routed(method@, connection@, upgrade@);
    reveal_strlit("upgrade");
}

/// The sender of a push is told how it went.
pub proof fn law_push_reply(job: &PushJob, outcomes: &Vec<Result<(), String>>, r: Reply)
    requires
        call_ensures(push_reply, (job, outcomes), r),
        !job.third,
    ensures
        r@.status == 200,
        job.single && outcomes@.len() > 0 && outcomes@.last() is Err ==> r@.body == encode_utf8(
            "failed: "@ + outcomes@.last()->Err_0@,
        ),
        !job.single || outcomes@.len() == 0 || outcomes@.last() is Ok ==> r@.body == encode_utf8(
            "success"@,
        ),
{
    crate::push_laws::law_sender_is_told_the_outcome(job@, outcomes@);
}

/// A request in JSON gives its entries as parameters, after those of the query.
pub proof fn law_json_request_gives_its_entries(
    content_type: &str,
    body: &[u8],
    r: Option<Params>,
    entries: Seq<(Seq<char>, JsonTree)>,
    k: Seq<char>,
)
    requires
        call_ensures(parse_params, (None, content_type, body), r),
        crate::text::lowered(content_type@) == "application/json"@,
        crate::json::parsed_tree(body@) == Some(JsonTree::Object(entries)),
    ensures
        r is Some,
        match crate::json::lookup(entries, k) {
            Some(v) => r->Some_0@.contains_key(k) && r->Some_0@[k] == v,
            None => !r->Some_0@.contains_key(k),
        },
{
    crate::push_laws::law_requests_can_be_read(Seq::empty(), content_type@, body@);
    crate::push_laws::law_body_follows_query(
        None,
        content_type@,
        body@,
        entries,
        Seq::empty(),
    );
    crate::push_laws::law_first_entry_counts(Map::empty(), entries, k);
}

/// A message is written with the fields that it has, in their order.
pub proof fn law_message_payload(
    title: String,
    content: String,
    date: &str,
    kind: String,
    all: Vec<u8>,
    least: Vec<u8>,
)
    requires
        call_ensures(message_payload, (&Some(title), &Some(content), date, &Some(kind)), all),
        call_ensures(
            message_payload,
            (&None::<String>, &None::<String>, date, &None::<String>),
            least,
        ),
    ensures
        all@ == encode_utf8(
            crate::json::written(
                JsonTree::Object(
                    seq![
                        ("title"@, JsonTree::Text(title@)),
                        ("content"@, JsonTree::Text(content@)),
                        ("date"@, JsonTree::Text(date@)),
                        ("type"@, JsonTree::Text(kind@)),
                    ],
                ),
            ),
        ),
        least@ == encode_utf8(
            crate::json::written(JsonTree::Object(seq![("date"@, JsonTree::Text(date@))])),
        ),
{
    let none = Seq::<(Seq<char>, JsonTree)>::empty();
    assert(seq![("title"@, JsonTree::Text(title@))] + seq![("content"@, JsonTree::Text(content@))]
        + seq![("date"@, JsonTree::Text(date@))] + seq![("type"@, JsonTree::Text(kind@))] =~= seq![
        ("title"@, JsonTree::Text(title@)),
        ("content"@, JsonTree::Text(content@)),
        ("date"@, JsonTree::Text(date@)),
        ("type"@, JsonTree::Text(kind@)),
    ]);
    assert(none + none + seq![("date"@, JsonTree::Text(date@))] + none =~= seq![
        ("date"@, JsonTree::Text(date@)),
    ]);
}

/// A request without a webhook's type is no webhook message; one with it is.
pub proof fn law_detect_finds_webhooks(params: &Params, r: ThirdData)
    requires
        call_ensures(detect, (params,), r),
    ensures
        r.detected <==> text_param(params@, "msg_type"@) is Some || text_param(
            params@,
            "msgtype"@,
        ) is Some,
        !r.detected ==> r.title@.len() == 0 && r.content@.len() == 0 && r.kind@.len() == 0,
{
    crate::webhook_laws::law_webhooks_are_told_apart(params@, Seq::empty(), JsonTree::Null);
}

/// Plain texts of webhooks are their content.
pub proof fn law_plain_webhooks(node: &Json, r: ThirdData, q: ThirdData)
    requires
        call_ensures(weiding, ("text", Some(node)), r),
        call_ensures(feishu, ("text", Some(node)), q),
    ensures
        r.content@ == crate::third::loose_text(node@.field("content"@)),
        r.title@.len() == 0,
        r.kind@ == "text"@,
        r.detected,
        q.content@ == crate::third::loose_text(node@.field("text"@)),
        q.title@.len() == 0,
        q.kind@.len() == 0,
        q.detected,
{
    crate::webhook_laws::law_text_messages(Some(node@));
    crate::webhook_laws::law_other_messages(Some(node@));
}

// ---- requests of a browser ----

/// The first page, and the pages to install and to log in.
pub proof fn law_pages_of_the_panel(
    cfg: &AppConfig,
    user: &Option<String>,
    first: Reply,
    install_it: Reply,
    login: Reply,
)
    requires
        call_ensures(index, (cfg, user), first),
        call_ensures(install_page, (cfg,), install_it),
        call_ensures(login_page, (cfg,), login),
    ensures
        !cfg@.installed() ==> first@ == html_reply_of(install_page_of()),
        cfg@.installed() && *user is None ==> first@ == html_reply_of(login_page_of()),
        cfg@.installed() ==> install_it@ == redirect_of("/"@, None) && login@ == html_reply_of(
            login_page_of(),
        ),
        !cfg@.installed() ==> install_it@ == html_reply_of(install_page_of()) && login@
            == redirect_of("/install"@, None),
{
}

/// A session is needed where it is asked for; logging out forgets it.
pub proof fn law_sessions_are_asked_for(
    some: String,
    let_in: Option<Reply>,
    refused: Option<Reply>,
    out: Reply,
)
    requires
        call_ensures(require_login, (&Some(some),), let_in),
        call_ensures(require_login, (&None::<String>,), refused),
        call_ensures(logout, (), out),
    ensures
        let_in is None,
        refused is Some && refused->Some_0@.status == 401,
        out@.status == 303,
        out@.headers == seq![
            ("location"@, "/"@),
            ("set-cookie"@, "pushme_session=; Path=/; HttpOnly; Max-Age=0"@),
        ],
{
    reveal_strlit("pushme_session");
    reveal_strlit("=; Path=/; HttpOnly; Max-Age=0");
    reveal_strlit("pushme_session=; Path=/; HttpOnly; Max-Age=0");
    assert(crate::auth::SESSION_COOKIE@ + "=; Path=/; HttpOnly; Max-Age=0"@
        =~= "pushme_session=; Path=/; HttpOnly; Max-Age=0"@);
    assert(out@.headers =~= seq![
        ("location"@, "/"@),
        ("set-cookie"@, "pushme_session=; Path=/; HttpOnly; Max-Age=0"@),
    ]);
}

/// The keys are listed for a user alone.
pub proof fn law_keys_list(user: &Option<String>, cfg: &AppConfig, r: Reply)
    requires
        call_ensures(api_keys_list, (user, cfg), r),
    ensures
        *user is None ==> r@.status == 401,
        *user is Some ==> r@ == json_reply_of(
            200,
            JsonTree::Object(
                seq![
                    ("keys"@, JsonTree::Array(crate::panel::key_trees(cfg@.keys()))),
                    ("ok"@, JsonTree::Bool(true)),
                ],
            ),
        ),
{
}

/// A test that was sent is counted, logged and told; so is one that failed, but
/// for the count.
pub proof fn law_record_test(
    store: &mut ConfigStore,
    log: &mut PushLog,
    time: String,
    job: &TestJob,
    outcome: &Result<(), String>,
    r: Reply,
)
    requires
        call_ensures(record_test, (store, log, time, job, outcome), r),
        old(log).entries().len() < old(log).room(),
        old(store).count() < i64::MAX,
    ensures
        final(store).count() == old(store).count() + if *outcome is Ok {
            1int
        } else {
            0
        },
        final(store).config() == old(store).config(),
        final(log).entries().len() == old(log).entries().len() + 1,
        final(log).entries().last().key == job.key@,
        *outcome is Ok ==> final(log).entries().last().result == "test-success"@,
        *outcome is Err ==> final(log).entries().last().result == "test-failed"@,
        r@.status == 200,
{
}

/// A hash that could be made becomes the password; one that could not is told.
pub proof fn law_set_password(
    a: &mut AppConfig,
    new: &str,
    hash: String,
    upgraded: bool,
    p: Handled,
    b: &mut AppConfig,
    e: String,
    q: Handled,
)
    requires
        call_ensures(set_password, (a, new, Ok::<String, String>(hash), upgraded), p),
        call_ensures(set_password, (b, new, Err::<String, String>(e), upgraded), q),
    ensures
        final(a)@.pass_hash == hash@,
        final(a)@.password == crate::auth::md5_pushme_of(new@),
        final(a)@.admin_user == old(a)@.admin_user,
        p.save && p.reply@.status == 200,
        final(b)@ == old(b)@,
        q.save == upgraded && q.reply@.status == 500,
{
}

/// A certificate is made for the names that are asked for, where there is one;
/// the outcome is told.
pub proof fn law_certificate_request(
    user: &Option<String>,
    params: &Params,
    r: Result<Vec<String>, Reply>,
    good: Reply,
    e: String,
    bad: Reply,
    s: Seq<char>,
)
    requires
        call_ensures(cert_request, (user, params), r),
        call_ensures(cert_outcome, (&Ok::<(), String>(()),), good),
        call_ensures(cert_outcome, (&Err::<(), String>(e),), bad),
        text_param(params@, "domains"@) == Some(s),
    ensures
        *user is None ==> r is Err && r->Err_0@.status == 401,
        r is Ok ==> texts(r->Ok_0@) == crate::settings::names_in(s) && r->Ok_0@.len() > 0,
        *user is Some && r is Err ==> r->Err_0@.status == 400 && crate::settings::names_in(s).len()
            == 0,
        good@.status == 200,
        bad@.status == 500,
{
    if r is Ok {
        assert(texts(r->Ok_0@).len() == r->Ok_0@.len());
    }
}

// ---- the login ----

/// A login: locked out, let in with a clean slate, or counted as a failure.
pub proof fn law_login_request(
    guard: &mut LoginGuard,
    cfg: &mut AppConfig,
    sessions: &Sessions,
    params: &Params,
    now: u128,
    secs: u64,
    r: Handled,
    user: Seq<char>,
    password: Seq<char>,
)
    requires
        call_ensures(login_submit_at, (guard, cfg, sessions, params, now, secs), r),
        text_param(params@, "user"@) == Some(user),
        text_param(params@, "password"@) == Some(password),
    ensures
        old(guard)@.remaining(now) > 0 ==> final(guard)@ == old(guard)@ && final(cfg)@ == old(cfg)@
            && r.reply@.status == 200 && !r.save,
        old(guard)@.remaining(now) == 0 && crate::auth::login_ok(
            old(cfg)@,
            trimmed(user),
            password,
        ) ==> final(guard)@.fails == 0 && final(guard)@.locked_until is None && r.reply@
            == welcome_of(sessions.secret(), trimmed(user), secs, old(cfg)@.panel_tls),
        old(guard)@.remaining(now) == 0 && !crate::auth::login_ok(
            old(cfg)@,
            trimmed(user),
            password,
        ) ==> final(guard)@ == old(guard)@.failed(now) && final(cfg)@ == old(cfg)@
            && r.reply@.status == 200 && !r.save,
{
}

/// The guard tells the seconds that are left, counts failures and forgets them.
pub proof fn law_guard_counts_failures(
    guard: &LoginGuard,
    now: u128,
    left: u64,
    failed: &mut LoginGuard,
    chances: u32,
    reset: &mut LoginGuard,
    r: (),
)
    requires
        call_ensures(LoginGuard::lock_remaining_at, (guard, now), left),
        call_ensures(LoginGuard::record_fail_at, (failed, now), chances),
        call_ensures(LoginGuard::reset, (reset,), r),
        old(failed)@.locked_until is None,
    ensures
        left > 0 <==> guard@.locked_until is Some && guard@.locked_until->Some_0 > now,
        old(failed)@.fails < 4 ==> final(failed)@.fails == old(failed)@.fails + 1 && final(
            failed)@.locked_until is None && chances == 4 - old(failed)@.fails,
        old(failed)@.fails == 4 ==> final(failed)@.fails == 0 && final(failed)@.locked_until is Some
            && chances == 0,
        final(reset)@.fails == 0,
        final(reset)@.locked_until is None,
{
}

/// An installation that was saved welcomes the administrator; one that was not
/// is told why.
pub proof fn law_install_is_finished(
    user: &str,
    sessions: &Sessions,
    cfg: &AppConfig,
    secs: u64,
    p: Reply,
    e: String,
    q: Reply,
)
    requires
        call_ensures(finish_install_at, (&Ok::<(), String>(()), user, sessions, cfg, secs), p),
        call_ensures(finish_install_at, (&Err::<(), String>(e), user, sessions, cfg, secs), q),
    ensures
        p@ == welcome_of(sessions.secret(), user@, secs, cfg@.panel_tls),
        p@.status == 303,
        q@ == html_reply_of(install_error_of(e@)),
{
}

/// Whoever installs can log in.
pub proof fn law_install_keeps_the_administrator(
    cfg: &mut AppConfig,
    username: &str,
    password: &str,
    r: Result<(), String>,
)
    requires
        call_ensures(install, (cfg, username, password), r),
        username@.len() > 0,
    ensures
        r is Ok ==> crate::auth::login_ok(final(cfg)@, username@, password@),
        r is Err ==> final(cfg)@ == old(cfg)@,
        final(cfg)@.push_keys == old(cfg)@.push_keys,
{
}

// ---- the configuration ----

/// A key is among those of a configuration where a stored value has it, and a
/// temporary key stands for the key beside it.
pub proof fn law_keys_of_a_configuration(
    cfg: &AppConfig,
    keys: Vec<String>,
    k: Seq<char>,
    temp: &str,
    found: Option<String>,
    i: int,
)
    requires
        call_ensures(AppConfig::key_set, (cfg,), keys),
        call_ensures(AppConfig::find_by_temp_key, (cfg, temp), found),
    ensures
        texts(keys@).contains(k) <==> k.len() > 0 && exists|j: int|
            0 <= j < cfg@.push_keys.len() && (#[trigger] push_key_of(cfg@.push_keys[j])) is Some
                && push_key_of(cfg@.push_keys[j])->Some_0.key == k,
        temp@.len() == 0 ==> found is None,
        temp@.len() > 0 && 0 <= i < cfg@.keys().len() && cfg@.keys()[i].temp_key == temp@ && (forall|
            j: int,
        |
            0 <= j < i ==> (#[trigger] cfg@.keys()[j]).temp_key != temp@) ==> found is Some
            && found->Some_0@ == cfg@.keys()[i].key,
{
    crate::panel_laws::law_configured_keys_are_stored(cfg@, k);
    if temp@.len() > 0 && 0 <= i < cfg@.keys().len() && cfg@.keys()[i].temp_key == temp@ && (forall|
        j: int,
    |
        0 <= j < i ==> (#[trigger] cfg@.keys()[j]).temp_key != temp@) {
        crate::panel_laws::law_temporary_key_stands_for_the_first(cfg@, temp@, i);
    }
}

/// A configuration that is read is used as it is, with a session key where it
/// had none and the version of today; without one the service begins anew.
pub proof fn law_configuration_is_loaded(
    cfg: AppConfig,
    a: ConfigStore,
    b: ConfigStore,
    c: &mut ConfigStore,
    n: i64,
    r: (),
)
    requires
        call_ensures(ConfigStore::load, (Some(cfg),), a),
        call_ensures(ConfigStore::load, (None,), b),
        call_ensures(ConfigStore::incr_message_count, (c, n), r),
        i64::MIN <= old(c).count() + n <= i64::MAX,
    ensures
        a.config() == (ConfigView {
            session_key: a.config().session_key,
            config_version: a.config().config_version,
            ..cfg@
        }),
        cfg@.session_key.len() > 0 ==> a.config().session_key == cfg@.session_key,
        a.config().config_version >= 2,
        a.count() == cfg@.message_count,
        b.config().server_port == 3100 && b.config().panel_port == 3010,
        b.config().panel_bind == "127.0.0.1"@ && b.config().status == "start"@,
        b.config().push_keys.len() == 0 && !b.config().installed(),
        b.count() == 0,
        final(c).count() == old(c).count() + n,
        final(c).config() == old(c).config(),
{
}

/// A parameter is taken where there is none of its name, and read by its name.
pub proof fn law_parameters_are_put(
    a: &mut Params,
    key: String,
    value: Json,
    p: (),
    b: &Params,
    name: &str,
    text: Option<String>,
)
    requires
        call_ensures(Params::put, (a, key, value), p),
        call_ensures(Params::get_str, (b, name), text),
    ensures
        final(a)@.contains_key(key@),
        old(a)@.contains_key(key@) ==> final(a)@ == old(a)@,
        !old(a)@.contains_key(key@) ==> final(a)@[key@] == value@,
        forall|k: Seq<char>|
            k != key@ ==> (#[trigger] final(a)@.contains_key(k) <==> old(a)@.contains_key(k)),
        forall|k: Seq<char>|
            k != key@ && #[trigger] old(a)@.contains_key(k) ==> final(a)@[k] == old(a)@[k],
        !b@.contains_key(name@) ==> text is None,
        b@.contains_key(name@) && b@[name@] is Text ==> text is Some && text->Some_0@
            == b@[name@]->Text_0,
{
}

/// A request without cookies has no user; a cookie with a token has the user of
/// the token.
pub proof fn law_user_of_a_request(
    sessions: &Sessions,
    now: u64,
    r: Option<String>,
    cookies: &str,
    q: Option<String>,
    token: Seq<char>,
)
    requires
        call_ensures(session_user_at, (None, sessions, now), r),
        call_ensures(session_user_at, (Some(cookies), sessions, now), q),
        cookies@ == "pushme_session="@ + token,
        !cookies@.contains(';'),
        trimmed(cookies@) == cookies@,
    ensures
        r is None,
        match crate::auth::token_user(sessions.secret(), token, now as nat) {
            Some(user) => q is Some && q->Some_0@ == user,
            None => q is None,
        },
{
    let parts = seq![cookies@];
    assert(crate::text_laws::joined(parts, ';') == cookies@);
    crate::text_laws::law_joined_parts_split_again(parts, ';');
    crate::panel_laws::law_first_session_cookie_counts(parts, parts, cookies@);
    crate::text_laws::law_prefix_and_rest(cookies@, "pushme_session="@, token);
    crate::panel_laws::law_session_comes_from_the_cookies(
        sessions.secret(),
        cookies@,
        token,
        now as nat,
    );
}

/// A log begins empty, with room for one entry at least, and is emptied.
pub proof fn law_logs_begin_empty(capacity: usize, log: PushLog, a: &mut PushLog, r: ())
    requires
        call_ensures(PushLog::new, (capacity,), log),
        call_ensures(PushLog::clear, (a,), r),
    ensures
        log.entries().len() == 0,
        log.room() >= 1,
        capacity > 0 ==> log.room() == capacity,
        final(a).entries().len() == 0,
        final(a).room() == old(a).room(),
{
}

/// What is read of a buffer is a packet at its beginning, and the rest stays;
/// where there is none, all of it stays.
pub proof fn law_packets_are_taken(buf: &mut Vec<u8>, r: Taken)
    requires
        call_ensures(take_packet, (buf,), r),
    ensures
        r is Packet ==> final(buf)@.len() < old(buf)@.len() && final(buf)@ == old(buf)@.skip(
            old(buf)@.len() - final(buf)@.len(),
        ),
        !(r is Packet) ==> final(buf)@ == old(buf)@,
        r is Malformed ==> r->Malformed_0@.take(18) == "malformed packet: "@,
{
    reveal_strlit("malformed packet: ");
    if r is Malformed {
        assert(r->Malformed_0@.take(18) =~= "malformed packet: "@);
    }
}

/// The status is told to a user alone.
pub proof fn law_status_request(
    user: &Option<String>,
    store: &ConfigStore,
    connections: i64,
    uptime: u64,
    log: &PushLog,
    r: Reply,
)
    requires
        call_ensures(api_status, (user, store, connections, uptime, log), r),
        log.entries().len() <= 30,
    ensures
        *user is None ==> r@.status == 401,
        *user is Some ==> r@ == json_reply_of(
            200,
            crate::settings::status_tree(
                crate::settings::service_tree(store.config(), store.count(), connections, uptime),
                log.entries().reverse(),
            ),
        ),
{
}

/// The names of a certificate end with the loopback addresses.
pub proof fn law_certificate_names(names: &Vec<String>, r: Vec<String>)
    requires
        call_ensures(cert_names, (names,), r),
    ensures
        texts(r@).contains("127.0.0.1"@),
        texts(r@).contains("::1"@),
        r@.len() > 0,
        names@.len() == 0 ==> r@[0]@ == "localhost"@,
        names@.len() > 0 && trimmed(names@[0]@).len() > 0 && names@.len() == 1 ==> r@[0]@
            == trimmed(names@[0]@),
{
    let list = texts(names@);
    let held = texts(r@);
    crate::auth_laws::law_names_of_a_certificate(list, Seq::empty());
    assert(held[0] == r@[0]@);
    if names@.len() == 0 {
        assert(list =~= Seq::<Seq<char>>::empty());
        crate::settings_laws::law_names_are_cleaned(list, list, Seq::empty());
        assert(held.take(1)[0] == held[0]);
    }
    if names@.len() == 1 {
        assert(list =~= seq![names@[0]@]);
        crate::settings_laws::law_names_are_cleaned(list, list, names@[0]@);
        if trimmed(names@[0]@).len() > 0 {
            assert(held.take(1)[0] == held[0]);
        }
    }
}

// ---- certificates, addresses and text ----

/// A certificate is made where a file is missing, and not where both are there.
pub proof fn law_certificates_are_made_once(
    r: Result<Option<CertPair>, String>,
    s: Result<Option<CertPair>, String>,
    a: bool,
    b: bool,
    both: bool,
)
    requires
        call_ensures(ensure_self_signed, (true, true), r),
        call_ensures(ensure_self_signed, (false, a), s),
        call_ensures(files_exist, (a, b), both),
    ensures
        r is Ok && r->Ok_0 is None,
        s is Ok ==> s->Ok_0 is Some,
        both <==> a && b,
{
}

/// Four numbers with dots between them are an address.
pub proof fn law_addresses_are_parsed(
    s: &str,
    r: Option<u32>,
    a: u8,
    b: u8,
    c: u8,
    d: u8,
    x: &IpAddr,
    y: &IpAddr,
    same: bool,
)
    requires
        call_ensures(parse_ipv4, (s,), r),
        s@ == dotted(a, b, c, d),
        call_ensures(same_ip, (x, y), same),
    ensures
        r == Some((a * 16777216 + b * 65536 + c * 256 + d) as u32),
        same <==> x@ == y@,
{
    crate::ip_laws::law_ipv4_addresses(s@, a, b, c, d);
}

/// Bytes are the same where they are equal, however they are compared.
pub proof fn law_bytes_are_compared(a: &[u8], b: &[u8], p: bool, q: bool)
    requires
        call_ensures(same_bytes, (a, b), p),
        call_ensures(constant_time_eq, (a, b), q),
    ensures
        p <==> a@ == b@,
        q <==> a@ == b@,
{
}

/// Text is trimmed, made small, escaped and filled in.
pub proof fn law_text_is_changed(
    s: &str,
    t: String,
    low: String,
    safe: String,
    pat: &str,
    with: &str,
    filled: String,
)
    requires
        call_ensures(trim_text, (s,), t),
        call_ensures(lower_text, (s,), low),
        call_ensures(html_escape, (s,), safe),
        pat@.len() > 0,
        call_ensures(replace_text, (s, pat, with), filled),
    ensures
        t@.len() > 0 ==> !crate::text::is_space(t@[0]) && !crate::text::is_space(t@.last()),
        t@.len() <= s@.len(),
        low@.len() == s@.len(),
        !safe@.contains('<') && !safe@.contains('>') && !safe@.contains('"'),
        s@ == pat@ ==> filled@ == with@,
{
    crate::text_laws::law_trimming_takes_white_space_alone(s@);
    crate::text::law_escaped_text_has_no_markup(s@);
    if s@ == pat@ {
        let none = Seq::<char>::empty();
        assert(none + pat@ + none =~= s@);
        crate::text_laws::law_first_place_is_replaced(none, pat@, none, with@);
        assert(none + with@ + none =~= with@);
    }
}

} // verus!
