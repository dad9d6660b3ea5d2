//! The settings, the log, the status and the test message of the panel.

use crate::auth::{login_ok, md5_pushme, md5_pushme_of, verify_login};
use crate::certs::{clean_names, cleaned};
use crate::clock::{is_timestamp, now_str};
use crate::config::{has_text_in, AppConfig, ConfigStore, ConfigView};
use crate::crypto::{bcrypt_hash, bcrypt_matches, is_hash_text, is_randomness_reason};
use crate::json::{
    entry_trees, json_text, lemma_array_tree, trees, whole, Json, JsonTree,
};
use crate::panel::{
    failure, failure_of, get, given, guarded, object, only, refusal, refused, require_login,
    saved, saved_tree, tell, told, Handled, PanelStep,
};
use crate::push_log::{last_n, log_entry, log_tree, log_views, LogEntry, LogView, PushLog};
use crate::reply::{json_reply, json_reply_of, Reply};
use crate::text::{
    after_prefix, decimal, parse_unsigned, same_text, split, split_text, str_view,
    string_view, strip_prefix, texts, trim_text, trimmed, unsigned_up_to,
};
use crate::third::{text_param, Params};
use vstd::prelude::*;
use vstd::slice::slice_to_vec;
use vstd::string::*;
use vstd::utf8::*;

verus! {

broadcast use vstd::string::group_string_axioms;

/// How short a new password may be, in bytes.
pub const MIN_PASSWORD_BYTES: usize = 6;

/// How many messages are kept for a key where the setting does not say.
pub const DEFAULT_OFFLINE_LIMIT: usize = 50;

/// The most messages that may be kept for a key.
pub const MAX_OFFLINE_LIMIT: usize = 1000;

/// How many log entries are handed out where the request does not say.
pub const DEFAULT_HISTORY: usize = 100;

/// The most log entries that are handed out.
pub const MAX_HISTORY: usize = 1000;

/// How many log entries the status shows.
pub const STATUS_LOGS: usize = 30;

// ---- password ----

/// The configuration with a new password.
pub open spec fn with_password(cfg: ConfigView, new: Seq<char>, hash: Seq<char>) -> ConfigView {
    ConfigView { pass_hash: hash, password: md5_pushme_of(new), ..cfg }
}

/// Sets a new password, once it has been hashed; `upgraded` says that the
/// configuration has changed before.
pub fn set_password(
    cfg: &mut AppConfig,
    new: &str,
    hashed: Result<String, String>,
    upgraded: bool,
) -> (r: Handled)
    ensures
        (PanelStep { reply: r.reply@, save: r.save, cfg: final(cfg)@ }) == match hashed {
            Ok(hash) => PanelStep {
                reply: json_reply_of(200, told(true, "密码已更新"@)),
                save: true,
                cfg: with_password(old(cfg)@, new@, hash@),
            },
            Err(e) => PanelStep { reply: failure_of(500, e@), save: upgraded, cfg: old(cfg)@ },
        },
{
    match hashed {
        Ok(hash) => {
            cfg.pass_hash = hash;
            cfg.password = md5_pushme(new);
            Handled { reply: json_reply(200, &tell(true, "密码已更新")), save: true }
        },
        Err(e) => Handled { reply: failure(500, e.as_str()), save: upgraded },
    }
}

/// A configuration in which nothing but the hash of the password may have
/// changed, to one that the password has.
pub open spec fn at_most_upgraded(before: ConfigView, after: ConfigView, password: Seq<char>) -> bool {
    after == before || bcrypt_matches(password, after.pass_hash) && after == (ConfigView {
        pass_hash: after.pass_hash,
        ..before
    })
}

/// Changes the password, for who knows the old one.
pub fn api_setting_password(user: &Option<String>, params: &Params, cfg: &mut AppConfig) -> (r:
    Handled)
    ensures
        ({
            let old_password = given(params@, "old_password"@);
            let new = given(params@, "new_password"@);
            match *user {
                None => r.reply@ == refusal() && !r.save && final(cfg)@ == old(cfg)@,
                Some(name) => if encode_utf8(new).len() < MIN_PASSWORD_BYTES {
                    r.reply@ == failure_of(400, "新密码至少 6 位"@) && !r.save && final(cfg)@ == old(
                        cfg,
                    )@
                } else if !login_ok(old(cfg)@, name@, old_password) {
                    r.reply@ == failure_of(403, "原密码错误"@) && !r.save && final(cfg)@ == old(
                        cfg,
                    )@
                } else {
                    ||| r.save && r.reply@ == json_reply_of(200, told(true, "密码已更新"@))
                        && bcrypt_matches(new, final(cfg)@.pass_hash) && is_hash_text(
                        final(cfg)@.pass_hash,
                    ) && final(cfg)@ == with_password(
                        old(cfg)@,
                        new,
                        final(cfg)@.pass_hash,
                    )
                    ||| at_most_upgraded(old(cfg)@, final(cfg)@, old_password) && (final(cfg)@ != old(
                        cfg,
                    )@ ==> r.save) && exists|e: Seq<char>|
                        is_randomness_reason(e) && r.reply@ == #[trigger] failure_of(500, e)
                },
            }
        }),
{
    let name = match user {
        Some(name) => name,
        None => {
            return refused();
        },
    };
    let old_password = get(params, "old_password");
    let new = get(params, "new_password");
    if new.as_str().as_bytes().len() < MIN_PASSWORD_BYTES {
        return Handled { reply: failure(400, "新密码至少 6 位"), save: false };
    }
    let hashed_before = !cfg.pass_hash.as_str().is_empty();
    if verify_login(cfg, name.as_str(), old_password.as_str()).is_err() {
        return Handled { reply: failure(403, "原密码错误"), save: false };
    }
    let upgraded = !hashed_before && !cfg.pass_hash.as_str().is_empty();
    let ghost mid = cfg@;
    let hashed = bcrypt_hash(new.as_str());
    let r = set_password(cfg, new.as_str(), hashed, upgraded);
    proof {
        assert(at_most_upgraded(old(cfg)@, mid, old_password@));
        if hashed is Ok {
            assert(cfg@ =~= with_password(old(cfg)@, new@, cfg@.pass_hash));
        }
    }
    r
}

/// Who has set a new password can log in with it. (The digest that stands in
/// for a missing user name is not empty.)
pub proof fn law_login_with_new_password(
    cfg: ConfigView,
    username: Seq<char>,
    old_password: Seq<char>,
    new: Seq<char>,
    hash: Seq<char>,
)
    requires
        login_ok(cfg, username, old_password),
        hash.len() > 0,
        bcrypt_matches(new, hash),
        cfg.admin_user.len() > 0 || md5_pushme_of(new).len() > 0,
    ensures
        login_ok(with_password(cfg, new, hash), username, new),
{
}

// ---- TLS, network, ports, status ----

/// A request to set TLS of the message service.
pub open spec fn tls_set(cfg: ConfigView, tls: Seq<char>) -> PanelStep {
    if tls == "none"@ || tls == "public"@ || tls == "self"@ {
        PanelStep {
            reply: json_reply_of(200, saved_tree("已保存，重启服务后生效"@, true)),
            save: true,
            cfg: ConfigView { tls, ..cfg },
        }
    } else {
        only(failure_of(400, "tls 取值仅支持 none/public/self"@), cfg)
    }
}

/// Sets TLS of the message service.
pub fn api_setting_tls(user: &Option<String>, params: &Params, cfg: &mut AppConfig) -> (r: Handled)
    ensures
        (PanelStep { reply: r.reply@, save: r.save, cfg: final(cfg)@ }) == guarded(
            string_view(*user),
            old(cfg)@,
            tls_set(old(cfg)@, given(params@, "tls"@)),
        ),
{
    if user.is_none() {
        return refused();
    }
    let tls = get(params, "tls");
    if !same_text(tls.as_str(), "none") && !same_text(tls.as_str(), "public") && !same_text(
        tls.as_str(),
        "self",
    ) {
        return Handled { reply: failure(400, "tls 取值仅支持 none/public/self"), save: false };
    }
    cfg.tls = tls;
    Handled { reply: json_reply(200, &saved("已保存，重启服务后生效", true)), save: true }
}

/// The texts that stand for yes.
pub open spec fn is_yes(s: Seq<char>) -> bool {
    s == "true"@ || s == "1"@ || s == "on"@
}

fn yes(s: &str) -> (r: bool)
    ensures
        r == is_yes(s@),
{
    same_text(s, "true") || same_text(s, "1") || same_text(s, "on")
}

/// A port as text, from 1 to 65535.
pub open spec fn port_of(s: Option<Seq<char>>) -> Option<u16> {
    match s {
        Some(text) => match unsigned_up_to(text, 65535) {
            Some(n) => if n > 0 {
                Some(n as u16)
            } else {
                None
            },
            None => None,
        },
        None => None,
    }
}

fn port(params: &Params, name: &str) -> (r: Option<u16>)
    ensures
        r == port_of(text_param(params@, name@)),
{
    match params.get_str(name) {
        Some(text) => match parse_unsigned(text.as_str(), 65535) {
            Some(n) => if n > 0 {
                Some(n as u16)
            } else {
                None
            },
            None => None,
        },
        None => None,
    }
}

/// A request to set where the panel listens, whether the public port serves
/// it, and its port; what is missing or blank stays.
pub open spec fn network_set(
    cfg: ConfigView,
    bind: Option<Seq<char>>,
    public: Option<Seq<char>>,
    port: Option<u16>,
) -> PanelStep {
    PanelStep {
        reply: json_reply_of(200, saved_tree("已保存，重启服务后生效"@, true)),
        save: true,
        cfg: ConfigView {
            panel_bind: match bind {
                Some(b) => if trimmed(b).len() > 0 {
                    trimmed(b)
                } else {
                    cfg.panel_bind
                },
                None => cfg.panel_bind,
            },
            public_panel: match public {
                Some(p) => is_yes(p),
                None => cfg.public_panel,
            },
            panel_port: match port {
                Some(p) => p,
                None => cfg.panel_port,
            },
            ..cfg
        },
    }
}

/// Sets where the panel listens.
pub fn api_setting_network(user: &Option<String>, params: &Params, cfg: &mut AppConfig) -> (r:
    Handled)
    ensures
        (PanelStep { reply: r.reply@, save: r.save, cfg: final(cfg)@ }) == guarded(
            string_view(*user),
            old(cfg)@,
            network_set(
                old(cfg)@,
                text_param(params@, "panel_bind"@),
                text_param(params@, "public_panel"@),
                port_of(text_param(params@, "panel_port"@)),
            ),
        ),
        *user is Some && text_param(params@, "public_panel"@) is Some ==> (
        final(cfg)@.public_panel <==> given(params@, "public_panel"@) == "true"@ || given(
            params@,
            "public_panel"@,
        ) == "1"@ || given(params@, "public_panel"@) == "on"@),
{
    if user.is_none() {
        return refused();
    }
    match params.get_str("panel_bind") {
        Some(b) => {
            let b = trim_text(b.as_str());
            if !b.as_str().is_empty() {
                cfg.panel_bind = b;
            }
        },
        None => {},
    }
    match params.get_str("public_panel") {
        Some(p) => {
            cfg.public_panel = yes(p.as_str());
        },
        None => {},
    }
    match port(params, "panel_port") {
        Some(p) => {
            cfg.panel_port = p;
        },
        None => {},
    }
    Handled { reply: json_reply(200, &saved("已保存，重启服务后生效", true)), save: true }
}

/// A request to set the two ports; what is missing or no port stays.
pub open spec fn ports_set(cfg: ConfigView, server: Option<u16>, panel: Option<u16>) -> PanelStep {
    let after = ConfigView {
        server_port: match server {
            Some(p) => p,
            None => cfg.server_port,
        },
        panel_port: match panel {
            Some(p) => p,
            None => cfg.panel_port,
        },
        ..cfg
    };
    let changed = after.server_port != cfg.server_port || after.panel_port != cfg.panel_port;
    PanelStep {
        reply: json_reply_of(
            200,
            saved_tree(
                if changed {
                    "已保存，重启服务后生效"@
                } else {
                    "端口未变化"@
                },
                changed,
            ),
        ),
        save: true,
        cfg: after,
    }
}

/// Sets the two ports.
pub fn api_setting_ports(user: &Option<String>, params: &Params, cfg: &mut AppConfig) -> (r:
    Handled)
    ensures
        (PanelStep { reply: r.reply@, save: r.save, cfg: final(cfg)@ }) == guarded(
            string_view(*user),
            old(cfg)@,
            ports_set(
                old(cfg)@,
                port_of(text_param(params@, "server_port"@)),
                port_of(text_param(params@, "panel_port"@)),
            ),
        ),
{
    if user.is_none() {
        return refused();
    }
    let mut changed: bool = false;
    match port(params, "server_port") {
        Some(p) => {
            if p != cfg.server_port {
                cfg.server_port = p;
                changed = true;
            }
        },
        None => {},
    }
    match port(params, "panel_port") {
        Some(p) => {
            if p != cfg.panel_port {
                cfg.panel_port = p;
                changed = true;
            }
        },
        None => {},
    }
    let message = if changed {
        "已保存，重启服务后生效"
    } else {
        "端口未变化"
    };
    Handled { reply: json_reply(200, &saved(message, changed)), save: true }
}

/// No port that is set here is zero.
pub proof fn law_ports_stay_valid(cfg: ConfigView, server: Option<Seq<char>>, panel: Option<Seq<char>>)
    requires
        cfg.server_port > 0,
        cfg.panel_port > 0,
    ensures
        ports_set(cfg, port_of(server), port_of(panel)).cfg.server_port > 0,
        ports_set(cfg, port_of(server), port_of(panel)).cfg.panel_port > 0,
{
}

/// A request to start or stop the message service.
pub open spec fn status_set(cfg: ConfigView, status: Seq<char>) -> PanelStep {
    if status == "start"@ || status == "stop"@ {
        PanelStep {
            reply: json_reply_of(
                200,
                saved_tree(
                    "消息服务已设为"@ + (if status == "start"@ {
                        "启动"@
                    } else {
                        "停止"@
                    }) + "，重启后生效"@,
                    true,
                ),
            ),
            save: true,
            cfg: ConfigView { status, ..cfg },
        }
    } else {
        only(failure_of(400, "status 取值仅支持 start/stop"@), cfg)
    }
}

/// Starts or stops the message service.
pub fn api_setting_status(user: &Option<String>, params: &Params, cfg: &mut AppConfig) -> (r:
    Handled)
    ensures
        (PanelStep { reply: r.reply@, save: r.save, cfg: final(cfg)@ }) == guarded(
            string_view(*user),
            old(cfg)@,
            status_set(old(cfg)@, given(params@, "status"@)),
        ),
{
    if user.is_none() {
        return refused();
    }
    let status = get(params, "status");
    let start = same_text(status.as_str(), "start");
    if !start && !same_text(status.as_str(), "stop") {
        return Handled { reply: failure(400, "status 取值仅支持 start/stop"), save: false };
    }
    let mut message = "消息服务已设为".to_string();
    if start {
        message.append("启动");
    } else {
        message.append("停止");
    }
    message.append("，重启后生效");
    cfg.status = status;
    Handled { reply: json_reply(200, &saved(message.as_str(), true)), save: true }
}

// ---- messages that wait ----

/// A number of messages as text, kept between one and the most there may be.
pub open spec fn limit_of(s: Option<Seq<char>>) -> usize {
    match s {
        Some(text) => match unsigned_up_to(text, usize::MAX as nat) {
            Some(n) => if n < 1 {
                1
            } else if n > MAX_OFFLINE_LIMIT {
                MAX_OFFLINE_LIMIT
            } else {
                n as usize
            },
            None => DEFAULT_OFFLINE_LIMIT,
        },
        None => DEFAULT_OFFLINE_LIMIT,
    }
}

fn limit(params: &Params) -> (r: usize)
    ensures
        r == limit_of(text_param(params@, "limit"@)),
{
    match params.get_str("limit") {
        Some(text) => match parse_unsigned(text.as_str(), usize::MAX as u64) {
            Some(n) => if n < 1 {
                1
            } else if n > MAX_OFFLINE_LIMIT as u64 {
                MAX_OFFLINE_LIMIT
            } else {
                n as usize
            },
            None => DEFAULT_OFFLINE_LIMIT,
        },
        None => DEFAULT_OFFLINE_LIMIT,
    }
}

/// The answer to a request about messages that wait.
pub open spec fn offline_tree(enabled: bool, limit: usize) -> JsonTree {
    JsonTree::Object(
        seq![
            ("message"@, JsonTree::Text("已保存（立即生效）"@)),
            ("offline_limit"@, JsonTree::Number(decimal(limit as nat))),
            ("offline_messages"@, JsonTree::Bool(enabled)),
            ("ok"@, JsonTree::Bool(true)),
        ],
    )
}

/// A request to keep messages that nobody is there to receive, or not.
pub open spec fn offline_set(cfg: ConfigView, enabled: bool, limit: usize) -> PanelStep {
    PanelStep {
        reply: json_reply_of(200, offline_tree(enabled, limit)),
        save: true,
        cfg: ConfigView { offline_messages: enabled, offline_limit: limit, ..cfg },
    }
}

/// Sets whether messages that nobody is there to receive are kept, and how
/// many.
pub fn api_setting_offline(user: &Option<String>, params: &Params, cfg: &mut AppConfig) -> (r:
    Handled)
    ensures
        (PanelStep { reply: r.reply@, save: r.save, cfg: final(cfg)@ }) == guarded(
            string_view(*user),
            old(cfg)@,
            offline_set(
                old(cfg)@,
                is_yes(given(params@, "enabled"@)),
                limit_of(text_param(params@, "limit"@)),
            ),
        ),
        *user is Some ==> (final(cfg)@.offline_messages <==> given(params@, "enabled"@) == "true"@
            || given(params@, "enabled"@) == "1"@ || given(params@, "enabled"@) == "on"@),
{
    if user.is_none() {
        return refused();
    }
    let enabled = yes(get(params, "enabled").as_str());
    let limit = limit(params);
    cfg.offline_messages = enabled;
    cfg.offline_limit = limit;
    let mut entries: Vec<(String, Json)> = Vec::new();
    entries.push(("message".to_string(), Json::Text("已保存（立即生效）".to_string())));
    entries.push(("offline_limit".to_string(), Json::unsigned(limit as u64)));
    entries.push(("offline_messages".to_string(), Json::Bool(enabled)));
    entries.push(("ok".to_string(), Json::Bool(true)));
    assert(entry_trees(entries@) =~= offline_tree(enabled, limit)->Object_0);
    Handled { reply: json_reply(200, &object(entries)), save: true }
}

/// However the limit is given, at least one message is kept and no more than
/// the most there may be.
pub proof fn law_limit_is_in_range(s: Option<Seq<char>>)
    ensures
        1 <= limit_of(s) <= MAX_OFFLINE_LIMIT,
{
}

// ---- certificates ----

/// The characters between names, all made commas.
pub open spec fn with_commas(s: Seq<char>) -> Seq<char> {
    Seq::new(
        s.len(),
        |i: int|
            if s[i] == '\n' || s[i] == '\r' || s[i] == ';' {
                ','
            } else {
                s[i]
            },
    )
}

/// The names in a text, between commas, semicolons and line ends.
pub open spec fn names_in(s: Seq<char>) -> Seq<Seq<char>> {
    cleaned(split(with_commas(s), ','))
}

/// The names in a text, between commas, semicolons and line ends.
pub fn domain_names(s: &str) -> (r: Vec<String>)
    ensures
        texts(r@) == names_in(s@),
{
    let mut plain = String::new();
    for c in it: s.chars()
        invariant
            it.seq() == s@,
            plain@ == with_commas(s@).take(it.index()),
    {
        let ghost k = it.index();
        assert(c == s@[k]);
        if c == '\n' || c == '\r' || c == ';' {
            plain.push(',');
        } else {
            plain.push(c);
        }
        assert(plain@ =~= with_commas(s@).take(k + 1));
    }
    assert(plain@ =~= with_commas(s@));
    let parts = split_text(plain.as_str(), ',');
    clean_names(&parts)
}

/// The names that a certificate is asked for.
pub open spec fn wanted_names(domains: Option<Seq<char>>, cn: Option<Seq<char>>) -> Seq<Seq<char>> {
    names_in(
        match domains {
            Some(d) => d,
            None => match cn {
                Some(c) => c,
                None => Seq::empty(),
            },
        },
    )
}

/// Reads a request for a certificate: the names to make it for, or the answer
/// where there are none.
pub fn cert_request(user: &Option<String>, params: &Params) -> (r: Result<Vec<String>, Reply>)
    ensures
        ({
            let names = wanted_names(text_param(params@, "domains"@), text_param(params@, "cn"@));
            match r {
                Ok(list) => *user is Some && names.len() > 0 && texts(list@) == names,
                Err(reply) => if *user is None {
                    reply@ == refusal()
                } else {
                    names.len() == 0 && reply@ == failure_of(400, "至少填写一个域名或 IP"@)
                },
            }
        }),
{
    match require_login(user) {
        Some(reply) => {
            return Err(reply);
        },
        None => {},
    }
    let raw = match params.get_str("domains") {
        Some(d) => d,
        None => match params.get_str("cn") {
            Some(c) => c,
            None => String::new(),
        },
    };
    assert(text_param(params@, "domains"@) is None && text_param(params@, "cn"@) is None ==> raw@
        =~= Seq::<char>::empty());
    let names = domain_names(raw.as_str());
    assert(texts(names@).len() == names@.len());
    if names.len() == 0 {
        return Err(failure(400, "至少填写一个域名或 IP"));
    }
    Ok(names)
}

/// Answers a request for a certificate, once it has been written or could not
/// be.
pub fn cert_outcome(outcome: &Result<(), String>) -> (r: Reply)
    ensures
        r@ == match *outcome {
            Ok(_) => json_reply_of(200, told(true, "证书已生成"@)),
            Err(e) => failure_of(500, e@),
        },
{
    match outcome {
        Ok(_) => json_reply(200, &tell(true, "证书已生成")),
        Err(e) => failure(500, e.as_str()),
    }
}

// ---- the test message ----

/// The message that the panel sends as a test.
pub open spec fn test_tree(title: Seq<char>, content: Seq<char>, date: Seq<char>) -> JsonTree {
    JsonTree::Object(
        seq![
            ("content"@, JsonTree::Text(content)),
            ("date"@, JsonTree::Text(date)),
            ("title"@, JsonTree::Text(title)),
        ],
    )
}

/// A test message ready to be published.
pub struct TestJob {
    pub key: String,
    pub title: String,
    pub payload: Vec<u8>,
    pub offline_messages: bool,
    pub offline_limit: usize,
}

/// Decides on a request for a test message at the given time: the message to
/// publish, or the answer.
pub fn plan_test(user: &Option<String>, params: &Params, cfg: &AppConfig, now: &str) -> (r: Result<
    TestJob,
    Reply,
>)
    ensures
        ({
            let key = given(params@, "key"@);
            let title = given(params@, "title"@);
            match r {
                Ok(job) => {
                    &&& *user is Some
                    &&& key.len() > 0
                    &&& cfg@.key_set().contains(key)
                    &&& job.key@ == key
                    &&& job.title@ == title
                    &&& job.payload@ == encode_utf8(
                        json_text(test_tree(title, given(params@, "content"@), now@)),
                    )
                    &&& job.offline_messages == cfg@.offline_messages
                    &&& job.offline_limit == cfg@.offline_limit
                },
                Err(reply) => if *user is None {
                    reply@ == refusal()
                } else if key.len() == 0 {
                    reply@ == failure_of(400, "缺少 key"@)
                } else {
                    !cfg@.key_set().contains(key) && reply@ == failure_of(400, "key 不存在"@)
                },
            }
        }),
{
    match require_login(user) {
        Some(reply) => {
            return Err(reply);
        },
        None => {},
    }
    let key = get(params, "key");
    let title = get(params, "title");
    let content = get(params, "content");
    if key.as_str().is_empty() {
        return Err(failure(400, "缺少 key"));
    }
    let keys = cfg.key_set();
    if !has_text_in(&keys, key.as_str()) {
        return Err(failure(400, "key 不存在"));
    }
    let ghost c = content@;
    let mut entries: Vec<(String, Json)> = Vec::new();
    entries.push(("content".to_string(), Json::Text(content)));
    entries.push(("date".to_string(), Json::Text(now.to_string())));
    entries.push(("title".to_string(), Json::Text(title.clone())));
    assert(entry_trees(entries@) =~= test_tree(title@, c, now@)->Object_0);
    let text = object(entries).to_text();
    Ok(
        TestJob {
            key,
            title,
            payload: slice_to_vec(text.as_str().as_bytes()),
            offline_messages: cfg.offline_messages,
            offline_limit: cfg.offline_limit,
        },
    )
}

/// Decides on a request for a test message now.
pub fn api_test(user: &Option<String>, params: &Params, cfg: &AppConfig) -> (r: Result<
    TestJob,
    Reply,
>)
    ensures
        ({
            let key = given(params@, "key"@);
            let title = given(params@, "title"@);
            match r {
                Ok(job) => {
                    &&& *user is Some
                    &&& key.len() > 0
                    &&& cfg@.key_set().contains(key)
                    &&& job.key@ == key
                    &&& job.title@ == title
                    &&& exists|now: Seq<char>| #[trigger]
                        is_timestamp(now) && job.payload@ == encode_utf8(
                            json_text(test_tree(title, given(params@, "content"@), now)),
                        )
                    &&& job.offline_messages == cfg@.offline_messages
                    &&& job.offline_limit == cfg@.offline_limit
                },
                Err(reply) => if *user is None {
                    reply@ == refusal()
                } else if key.len() == 0 {
                    reply@ == failure_of(400, "缺少 key"@)
                } else {
                    !cfg@.key_set().contains(key) && reply@ == failure_of(400, "key 不存在"@)
                },
            }
        }),
{
    let now = now_str();
    plan_test(user, params, cfg, now.as_str())
}

/// Records the publication of a test message and answers the request: a
/// success counts, and either way it is logged.
pub fn record_test(
    store: &mut ConfigStore,
    log: &mut PushLog,
    time: String,
    job: &TestJob,
    outcome: &Result<(), String>,
) -> (r: Reply)
    requires
        old(log).wf(),
    ensures
        final(log).wf(),
        final(log).room() == old(log).room(),
        final(log).entries() == last_n(
            old(log).entries().push(
                log_entry(
                    time@,
                    job.key@,
                    job.title@,
                    if *outcome is Ok {
                        "test-success"@
                    } else {
                        "test-failed"@
                    },
                ),
            ),
            old(log).room(),
        ),
        final(store).config() == old(store).config(),
        final(store).count() == if *outcome is Ok {
            old(store).count().wrapping_add(1)
        } else {
            old(store).count()
        },
        r@ == json_reply_of(
            200,
            match *outcome {
                Ok(_) => told(true, "已发送"@),
                Err(e) => told(false, e@),
            },
        ),
{
    match outcome {
        Ok(_) => {
            store.incr_message_count(1);
            log.push_at(time, job.key.as_str(), job.title.as_str(), "test-success");
            json_reply(200, &tell(true, "已发送"))
        },
        Err(e) => {
            log.push_at(time, job.key.as_str(), job.title.as_str(), "test-failed");
            json_reply(200, &tell(false, e.as_str()))
        },
    }
}

// ---- the log ----

/// The value of the first pair named `count`.
pub open spec fn count_text(pairs: Seq<Seq<char>>) -> Option<Seq<char>>
    decreases pairs.len(),
{
    if pairs.len() == 0 {
        None
    } else {
        match after_prefix(pairs[0], "count="@) {
            Some(v) => Some(v),
            None => count_text(pairs.skip(1)),
        }
    }
}

/// How many log entries a query asks for.
pub open spec fn history_count(query: Option<Seq<char>>) -> nat {
    let asked = match query {
        Some(q) => match count_text(split(q, '&')) {
            Some(v) => unsigned_up_to(v, usize::MAX as nat),
            None => None,
        },
        None => None,
    };
    match asked {
        Some(n) => if n > MAX_HISTORY {
            MAX_HISTORY as nat
        } else {
            n
        },
        None => DEFAULT_HISTORY as nat,
    }
}

fn find_count(query: &str) -> (r: Option<String>)
    ensures
        match r {
            Some(v) => count_text(split(query@, '&')) == Some(v@),
            None => count_text(split(query@, '&')) is None,
        },
{
    let pairs = split_text(query, '&');
    let ghost all = split(query@, '&');
    let mut i: usize = 0;
    assert(all.skip(0) =~= all);
    while i < pairs.len()
        invariant
            texts(pairs@) == all,
            all == split(query@, '&'),
            i <= pairs@.len(),
            count_text(all) == count_text(all.skip(i as int)),
        decreases pairs@.len() - i,
    {
        assert(all.skip(i as int)[0] == pairs@[i as int]@);
        assert(all.skip(i as int).skip(1) =~= all.skip(i + 1));
        match strip_prefix(pairs[i].as_str(), "count=") {
            Some(v) => {
                return Some(v);
            },
            None => {},
        }
        i = i + 1;
    }
    None
}

fn wanted_count(query: Option<&str>) -> (r: usize)
    ensures
        r == history_count(str_view(query)),
{
    let asked = match query {
        Some(q) => match find_count(q) {
            Some(v) => parse_unsigned(v.as_str(), usize::MAX as u64),
            None => None,
        },
        None => None,
    };
    match asked {
        Some(n) => if n > MAX_HISTORY as u64 {
            MAX_HISTORY
        } else {
            n as usize
        },
        None => DEFAULT_HISTORY,
    }
}

/// Log entries as JSON.
pub open spec fn log_trees(list: Seq<LogView>) -> Seq<JsonTree> {
    Seq::new(list.len(), |i: int| log_tree(list[i]))
}

fn log_array(list: &Vec<LogEntry>, most: usize) -> (r: Json)
    ensures
        r@ == JsonTree::Array(
            log_trees(
                if list@.len() <= most {
                    log_views(list@)
                } else {
                    log_views(list@).take(most as int)
                },
            ),
        ),
{
    let n: usize = if list.len() <= most {
        list.len()
    } else {
        most
    };
    let mut out: Vec<Json> = Vec::new();
    let mut i: usize = 0;
    while i < n
        invariant
            n <= list@.len(),
            i <= n,
            out@.len() == i,
            forall|k: int| 0 <= k < i ==> (#[trigger] out@[k])@ == log_tree(list@[k]@),
        decreases n - i,
    {
        out.push(list[i].to_json());
        i = i + 1;
    }
    proof {
        lemma_array_tree(out);
        assert(trees(out@) =~= log_trees(
            if list@.len() <= most {
                log_views(list@)
            } else {
                log_views(list@).take(most as int)
            },
        ));
    }
    Json::Array(out)
}

/// The answer to a request for the log.
pub open spec fn history_tree(list: Seq<LogView>) -> JsonTree {
    JsonTree::Object(
        seq![("logs"@, JsonTree::Array(log_trees(list))), ("ok"@, JsonTree::Bool(true))],
    )
}

/// Hands out the last log entries, in the order in which they were made.
pub fn api_log_history(user: &Option<String>, query: Option<&str>, log: &PushLog) -> (r: Reply)
    ensures
        r@ == if *user is Some {
            json_reply_of(
                200,
                history_tree(last_n(log.entries(), history_count(str_view(query)))),
            )
        } else {
            refusal()
        },
{
    match require_login(user) {
        Some(reply) => {
            return reply;
        },
        None => {},
    }
    let count = wanted_count(query);
    let list = log.recent_n(count);
    assert(log_views(list@).len() == list@.len());
    let logs = log_array(&list, list.len());
    let mut entries: Vec<(String, Json)> = Vec::new();
    entries.push(("logs".to_string(), logs));
    entries.push(("ok".to_string(), Json::Bool(true)));
    assert(entry_trees(entries@) =~= history_tree(
        last_n(log.entries(), history_count(str_view(query))),
    )->Object_0);
    json_reply(200, &object(entries))
}

/// Empties the log.
pub fn api_log_clear(user: &Option<String>, log: &mut PushLog) -> (r: Reply)
    requires
        old(log).wf(),
    ensures
        final(log).wf(),
        final(log).room() == old(log).room(),
        *user is Some ==> final(log).entries() == Seq::<LogView>::empty() && r@ == json_reply_of(
            200,
            told(true, "日志已清空"@),
        ),
        *user is None ==> final(log).entries() == old(log).entries() && r@ == refusal(),
{
    match require_login(user) {
        Some(reply) => {
            return reply;
        },
        None => {},
    }
    log.clear();
    json_reply(200, &tell(true, "日志已清空"))
}

/// A log entry as it is streamed.
pub fn log_line(entry: &LogEntry) -> (r: String)
    ensures
        r@ == json_text(log_tree(entry@)),
{
    entry.to_json().to_text()
}

// ---- the status ----

/// What the status says of the service.
pub open spec fn service_tree(cfg: ConfigView, count: i64, connections: i64, uptime: u64) -> JsonTree {
    JsonTree::Object(
        seq![
            ("connections"@, JsonTree::Number(whole(connections as int))),
            ("message_count"@, JsonTree::Number(whole(count as int))),
            ("offline_limit"@, JsonTree::Number(decimal(cfg.offline_limit as nat))),
            ("offline_messages"@, JsonTree::Bool(cfg.offline_messages)),
            ("panel_bind"@, JsonTree::Text(cfg.panel_bind)),
            ("panel_port"@, JsonTree::Number(decimal(cfg.panel_port as nat))),
            ("server_port"@, JsonTree::Number(decimal(cfg.server_port as nat))),
            ("status"@, JsonTree::Text(cfg.status)),
            ("tls"@, JsonTree::Text(cfg.tls)),
            ("uptime"@, JsonTree::Number(decimal(uptime as nat))),
        ],
    )
}

/// The newest entries of a log, newest first, up to so many.
pub open spec fn newest(entries: Seq<LogView>, most: nat) -> Seq<LogView> {
    if entries.len() <= most {
        entries.reverse()
    } else {
        entries.reverse().take(most as int)
    }
}

/// The status of the service, with the newest log entries.
pub open spec fn status_tree(service: JsonTree, logs: Seq<LogView>) -> JsonTree {
    JsonTree::Object(
        seq![
            ("logs"@, JsonTree::Array(log_trees(logs))),
            ("ok"@, JsonTree::Bool(true)),
            ("status"@, service),
        ],
    )
}

fn service(cfg: &AppConfig, count: i64, connections: i64, uptime: u64) -> (r: Json)
    ensures
        r@ == service_tree(cfg@, count, connections, uptime),
{
    let mut entries: Vec<(String, Json)> = Vec::new();
    entries.push(("connections".to_string(), Json::signed(connections)));
    entries.push(("message_count".to_string(), Json::signed(count)));
    entries.push(("offline_limit".to_string(), Json::unsigned(cfg.offline_limit as u64)));
    entries.push(("offline_messages".to_string(), Json::Bool(cfg.offline_messages)));
    entries.push(("panel_bind".to_string(), Json::Text(cfg.panel_bind.clone())));
    entries.push(("panel_port".to_string(), Json::unsigned(cfg.panel_port as u64)));
    entries.push(("server_port".to_string(), Json::unsigned(cfg.server_port as u64)));
    entries.push(("status".to_string(), Json::Text(cfg.status.clone())));
    entries.push(("tls".to_string(), Json::Text(cfg.tls.clone())));
    entries.push(("uptime".to_string(), Json::unsigned(uptime)));
    assert(entry_trees(entries@) =~= service_tree(cfg@, count, connections, uptime)->Object_0);
    object(entries)
}

/// Tells how the service is doing.
pub fn api_status(
    user: &Option<String>,
    store: &ConfigStore,
    connections: i64,
    uptime: u64,
    log: &PushLog,
) -> (r: Reply)
    ensures
        r@ == if *user is Some {
            json_reply_of(
                200,
                status_tree(
                    service_tree(store.config(), store.count(), connections, uptime),
                    newest(log.entries(), STATUS_LOGS as nat),
                ),
            )
        } else {
            refusal()
        },
{
    match require_login(user) {
        Some(reply) => {
            return reply;
        },
        None => {},
    }
    let list = log.recent();
    assert(log_views(list@).len() == list@.len());
    let logs = log_array(&list, STATUS_LOGS);
    let about = service(store.get(), store.message_count(), connections, uptime);
    let mut entries: Vec<(String, Json)> = Vec::new();
    entries.push(("logs".to_string(), logs));
    entries.push(("ok".to_string(), Json::Bool(true)));
    entries.push(("status".to_string(), about));
    assert(entry_trees(entries@) =~= status_tree(
        service_tree(store.config(), store.count(), connections, uptime),
        newest(log.entries(), STATUS_LOGS as nat),
    )->Object_0);
    json_reply(200, &object(entries))
}

} // verus!
