//! What each setting of the panel does to the configuration, and what the panel
//! tells of the service.

use crate::certs::cleaned;
use crate::config::{stored_or_fresh, AppConfig, ConfigView};
use crate::json::JsonTree;
use crate::panel::{given, PanelStep};
use crate::push_log::{
    first_chars, last_n, log_entry, log_tree, log_views, LogEntry, LogView,
};
use crate::reply::json_reply_of;
use crate::settings::{
    count_text, history_count, history_tree, is_yes, limit_of, log_trees, names_in, network_set,
    newest, offline_set, port_of, ports_set, service_tree, status_set, status_tree, test_tree,
    tls_set, wanted_names, with_commas, with_password,
};
use crate::text::{after_prefix, decimal, split, trimmed, unsigned};
use crate::third::text_param;
use vstd::prelude::*;

verus! {

broadcast use vstd::string::group_string_axioms;

/// The answer to a setting that counts after a restart.
pub open spec fn counts_after_restart(message: Seq<char>, restart: bool) -> JsonTree {
    JsonTree::Object(
        seq![
            ("message"@, JsonTree::Text(message)),
            ("ok"@, JsonTree::Bool(true)),
            ("restart"@, JsonTree::Bool(restart)),
        ],
    )
}

// ---- waiting messages ----

/// Waiting messages are kept after a request whose `enabled` is `true`, `1` or
/// `on`, and not kept after one with any other text there or with none.
pub proof fn law_enabled_keeps_waiting_messages(
    cfg: ConfigView,
    params: Map<Seq<char>, JsonTree>,
    limit: usize,
    s: Seq<char>,
)
    ensures
        ({
            let after = offline_set(cfg, is_yes(given(params, "enabled"@)), limit).cfg;
            &&& params.contains_key("enabled"@) && params["enabled"@] == JsonTree::Text("true"@)
                ==> after.offline_messages
            &&& params.contains_key("enabled"@) && params["enabled"@] == JsonTree::Text("1"@)
                ==> after.offline_messages
            &&& params.contains_key("enabled"@) && params["enabled"@] == JsonTree::Text("on"@)
                ==> after.offline_messages
            &&& params.contains_key("enabled"@) && params["enabled"@] == JsonTree::Bool(true)
                ==> after.offline_messages
            &&& params.contains_key("enabled"@) && params["enabled"@] == JsonTree::Bool(false)
                ==> !after.offline_messages
            &&& params.contains_key("enabled"@) && params["enabled"@] == JsonTree::Text(s) && s
                != "true"@ && s != "1"@ && s != "on"@ ==> !after.offline_messages
            &&& !params.contains_key("enabled"@) ==> !after.offline_messages
        }),
{
    reveal_strlit("true");
    reveal_strlit("false");
    reveal_strlit("1");
    reveal_strlit("on");
    assert("false"@.len() == 5 && "true"@.len() == 4 && "1"@.len() == 1 && "on"@.len() == 2);
}

/// The setting of waiting messages changes whether and how many are kept, and
/// nothing else; the answer tells both.
pub proof fn law_offline_setting_changes_itself_alone(cfg: ConfigView, enabled: bool, limit: usize)
    ensures
        offline_set(cfg, enabled, limit) == (PanelStep {
            reply: json_reply_of(
                200,
                JsonTree::Object(
                    seq![
                        ("message"@, JsonTree::Text("已保存（立即生效）"@)),
                        ("offline_limit"@, JsonTree::Number(decimal(limit as nat))),
                        ("offline_messages"@, JsonTree::Bool(enabled)),
                        ("ok"@, JsonTree::Bool(true)),
                    ],
                ),
            ),
            save: true,
            cfg: ConfigView { offline_messages: enabled, offline_limit: limit, ..cfg },
        }),
{
}

/// The number of waiting messages is the one that is given, but at least 1 and
/// at most 1000, and 50 where none is given.
pub proof fn law_limit_is_the_given_one(s: Seq<char>, n: nat)
    requires
        n <= usize::MAX,
    ensures
        unsigned(s) == Some(n) ==> limit_of(Some(s)) as nat == if n < 1 {
            1
        } else if n > 1000 {
            1000
        } else {
            n
        },
        unsigned(s) is None ==> limit_of(Some(s)) == 50,
        limit_of(None) == 50,
{
}

// ---- addresses and ports ----

/// The panel can be reached from outside after a request whose `public_panel`
/// is `true`, `1` or `on`, not after one with any other text there, and as
/// before after one with none.
pub proof fn law_public_panel_opens_the_panel(
    cfg: ConfigView,
    bind: Option<Seq<char>>,
    params: Map<Seq<char>, JsonTree>,
    port: Option<u16>,
    s: Seq<char>,
)
    ensures
        ({
            let after = network_set(cfg, bind, text_param(params, "public_panel"@), port).cfg;
            &&& params.contains_key("public_panel"@) && params["public_panel"@] == JsonTree::Text(
                "true"@,
            ) ==> after.public_panel
            &&& params.contains_key("public_panel"@) && params["public_panel"@] == JsonTree::Text(
                "1"@,
            ) ==> after.public_panel
            &&& params.contains_key("public_panel"@) && params["public_panel"@] == JsonTree::Text(
                "on"@,
            ) ==> after.public_panel
            &&& params.contains_key("public_panel"@) && params["public_panel"@] == JsonTree::Bool(
                true,
            ) ==> after.public_panel
            &&& params.contains_key("public_panel"@) && params["public_panel"@] == JsonTree::Text(s)
                && s != "true"@ && s != "1"@ && s != "on"@ ==> !after.public_panel
            &&& !params.contains_key("public_panel"@) ==> after.public_panel == cfg.public_panel
        }),
{
}

/// The address of the panel is the one that is given, without white space
/// around it, and its port the one that is given; what is missing or empty
/// stays, and nothing else changes.
pub proof fn law_network_setting(
    cfg: ConfigView,
    bind: Seq<char>,
    public: Option<Seq<char>>,
    port: u16,
)
    ensures
        network_set(cfg, Some(bind), public, Some(port)).cfg == (ConfigView {
            panel_bind: if trimmed(bind).len() > 0 {
                trimmed(bind)
            } else {
                cfg.panel_bind
            },
            public_panel: network_set(cfg, None, public, None).cfg.public_panel,
            panel_port: port,
            ..cfg
        }),
        network_set(cfg, None, None, None).cfg == cfg,
        network_set(cfg, None, public, Some(port)).cfg.panel_bind == cfg.panel_bind,
        network_set(cfg, Some(bind), public, None).cfg.panel_port == cfg.panel_port,
        network_set(cfg, Some(bind), public, Some(port)).save,
        network_set(cfg, Some(bind), public, Some(port)).reply == json_reply_of(
            200,
            counts_after_restart("已保存，重启服务后生效"@, true),
        ),
{
}

/// A port is a number from 1 to 65535; anything else is none.
pub proof fn law_ports_are_numbers(s: Seq<char>, n: nat)
    ensures
        unsigned(s) == Some(n) && 1 <= n <= 65535 ==> port_of(Some(s)) == Some(n as u16),
        unsigned(s) == Some(n) && (n == 0 || n > 65535) ==> port_of(Some(s)) is None,
        unsigned(s) is None ==> port_of(Some(s)) is None,
        port_of(None) is None,
{
}

/// The ports become the given ones, and one that is not given stays; the answer
/// says whether either changed.
pub proof fn law_ports_setting(cfg: ConfigView, server: u16, panel: u16)
    ensures
        ports_set(cfg, Some(server), Some(panel)).cfg == (ConfigView {
            server_port: server,
            panel_port: panel,
            ..cfg
        }),
        ports_set(cfg, Some(server), None).cfg == (ConfigView { server_port: server, ..cfg }),
        ports_set(cfg, None, Some(panel)).cfg == (ConfigView { panel_port: panel, ..cfg }),
        ports_set(cfg, None, None).cfg == cfg,
        ports_set(cfg, Some(server), Some(panel)).save,
        ports_set(cfg, Some(server), Some(panel)).reply == json_reply_of(
            200,
            if server != cfg.server_port || panel != cfg.panel_port {
                counts_after_restart("已保存，重启服务后生效"@, true)
            } else {
                counts_after_restart("端口未变化"@, false)
            },
        ),
{
}

// ---- TLS, status and password ----

/// TLS becomes what is given, where that is one of its three values, and
/// nothing else changes; another value is refused with no change.
pub proof fn law_tls_setting(cfg: ConfigView, tls: Seq<char>)
    ensures
        tls == "none"@ || tls == "public"@ || tls == "self"@ ==> tls_set(cfg, tls) == (PanelStep {
            reply: json_reply_of(200, counts_after_restart("已保存，重启服务后生效"@, true)),
            save: true,
            cfg: ConfigView { tls, ..cfg },
        }),
        tls != "none"@ && tls != "public"@ && tls != "self"@ ==> tls_set(cfg, tls) == (PanelStep {
            reply: json_reply_of(
                400,
                JsonTree::Object(
                    seq![
                        ("message"@, JsonTree::Text("tls 取值仅支持 none/public/self"@)),
                        ("ok"@, JsonTree::Bool(false)),
                    ],
                ),
            ),
            save: false,
            cfg,
        }),
{
}

/// The service starts or stops as is asked, and nothing else changes; another
/// wish is refused with no change.
pub proof fn law_status_setting(cfg: ConfigView, status: Seq<char>)
    ensures
        status_set(cfg, "start"@) == (PanelStep {
            reply: json_reply_of(
                200,
                counts_after_restart("消息服务已设为"@ + "启动"@ + "，重启后生效"@, true),
            ),
            save: true,
            cfg: ConfigView { status: "start"@, ..cfg },
        }),
        status_set(cfg, "stop"@) == (PanelStep {
            reply: json_reply_of(
                200,
                counts_after_restart("消息服务已设为"@ + "停止"@ + "，重启后生效"@, true),
            ),
            save: true,
            cfg: ConfigView { status: "stop"@, ..cfg },
        }),
        status != "start"@ && status != "stop"@ ==> status_set(cfg, status) == (PanelStep {
            reply: json_reply_of(
                400,
                JsonTree::Object(
                    seq![
                        ("message"@, JsonTree::Text("status 取值仅支持 start/stop"@)),
                        ("ok"@, JsonTree::Bool(false)),
                    ],
                ),
            ),
            save: false,
            cfg,
        }),
{
    reveal_strlit("start");
    reveal_strlit("stop");
    assert("start"@.len() == 5 && "stop"@.len() == 4);
}

/// A new password changes the two things that a password is checked by, and
/// nothing else; it is at least six bytes long.
pub proof fn law_password_setting(cfg: ConfigView, new: Seq<char>, hash: Seq<char>)
    ensures
        with_password(cfg, new, hash) == (ConfigView {
            pass_hash: hash,
            password: crate::auth::md5_pushme_of(new),
            ..cfg
        }),
        crate::settings::MIN_PASSWORD_BYTES == 6,
{
}

// ---- names for a certificate ----

/// The names for a certificate stand between commas, semicolons and line ends,
/// without white space around them and without empty ones.
pub proof fn law_names_are_parted(x: Seq<char>, y: Seq<char>, c: char, s: Seq<char>)
    ensures
        c == ',' || c == ';' || c == '\n' || c == '\r' ==> names_in(x.push(c) + y) == names_in(
            x.push(',') + y,
        ),
        names_in(s) == cleaned(split(with_commas(s), ',')),
        !s.contains(';') && !s.contains('\n') && !s.contains('\r') ==> with_commas(s) == s,
        wanted_names(Some(s), None) == names_in(s),
        wanted_names(Some(s), Some(x)) == names_in(s),
        wanted_names(None, Some(s)) == names_in(s),
        wanted_names(None, None) == names_in(Seq::empty()),
{
    if c == ',' || c == ';' || c == '\n' || c == '\r' {
        let a = x.push(c) + y;
        let b = x.push(',') + y;
        assert(with_commas(a) =~= with_commas(b)) by {
            assert forall|i: int| 0 <= i < a.len() implies with_commas(a)[i] == with_commas(
                b,
            )[i] by {
                if i == x.len() {
                    assert(a[i] == c && b[i] == ',');
                } else {
                    assert(a[i] == b[i]);
                }
            }
        }
    }
    if !s.contains(';') && !s.contains('\n') && !s.contains('\r') {
        assert forall|i: int| 0 <= i < s.len() implies with_commas(s)[i] == s[i] by {
            assert(s.contains(s[i]));
        }
        assert(with_commas(s) =~= s);
    }
}

/// A list is cleaned item by item: white space around it goes, and one that is
/// empty then goes too.
pub proof fn law_names_are_cleaned(x: Seq<Seq<char>>, y: Seq<Seq<char>>, s: Seq<char>)
    ensures
        cleaned(x + y) == cleaned(x) + cleaned(y),
        cleaned(seq![s]) == if trimmed(s).len() > 0 {
            seq![trimmed(s)]
        } else {
            Seq::<Seq<char>>::empty()
        },
        cleaned(Seq::empty()) == Seq::<Seq<char>>::empty(),
    decreases y.len(),
{
    reveal_with_fuel(cleaned, 2);
    assert(seq![s].drop_last() =~= Seq::<Seq<char>>::empty());
    if y.len() == 0 {
        assert(x + y =~= x);
        assert(cleaned(x) + cleaned(y) =~= cleaned(x));
    } else {
        assert((x + y).drop_last() =~= x + y.drop_last());
        law_names_are_cleaned(x, y.drop_last(), s);
        assert(cleaned(x + y) =~= cleaned(x) + cleaned(y));
    }
}

// ---- the test message ----

/// A test message holds the given title and content, and the time.
pub proof fn law_test_message(title: Seq<char>, content: Seq<char>, date: Seq<char>)
    ensures
        test_tree(title, content, date) == JsonTree::Object(
            seq![
                ("content"@, JsonTree::Text(content)),
                ("date"@, JsonTree::Text(date)),
                ("title"@, JsonTree::Text(title)),
            ],
        ),
{
}

// ---- the log and the status ----

/// The history shows as many entries as the query asks for, but at most 1000,
/// and 100 where it asks for none.
pub proof fn law_history_count_is_the_given_one(q: Seq<char>, v: Seq<char>, n: nat)
    requires
        n <= usize::MAX,
    ensures
        count_text(split(q, '&')) == Some(v) && unsigned(v) == Some(n) ==> history_count(Some(q))
            == if n > 1000 {
            1000
        } else {
            n
        },
        count_text(split(q, '&')) == Some(v) && unsigned(v) is None ==> history_count(Some(q))
            == 100,
        count_text(split(q, '&')) is None ==> history_count(Some(q)) == 100,
        history_count(None) == 100,
{
}

/// The count is that of the first pair that begins with `count=`.
pub proof fn law_first_count_counts(x: Seq<Seq<char>>, y: Seq<Seq<char>>, pair: Seq<char>)
    ensures
        count_text(x + y) == if count_text(x) is Some {
            count_text(x)
        } else {
            count_text(y)
        },
        count_text(seq![pair]) == after_prefix(pair, "count="@),
        count_text(Seq::empty()) is None,
    decreases x.len(),
{
    reveal_with_fuel(count_text, 2);
    assert(seq![pair].skip(1) =~= Seq::<Seq<char>>::empty());
    if x.len() == 0 {
        assert(x + y =~= y);
    } else {
        assert((x + y).skip(1) =~= x.skip(1) + y);
        assert((x + y)[0] == x[0]);
        law_first_count_counts(x.skip(1), y, pair);
    }
}

/// An entry of the log holds the time, the key and the outcome as they are, and
/// at most sixty characters of the title.
pub proof fn law_log_entries(time: Seq<char>, key: Seq<char>, title: Seq<char>, result: Seq<char>)
    ensures
        log_entry(time, key, title, result).time == time,
        log_entry(time, key, title, result).key == key,
        log_entry(time, key, title, result).result == result,
        title.len() <= 60 ==> log_entry(time, key, title, result).title == title,
        title.len() > 60 ==> log_entry(time, key, title, result).title == title.take(60),
        first_chars(title, 3) == if title.len() <= 3 {
            title
        } else {
            title.take(3)
        },
{
}

/// The last entries of a list, in order: the list ends with them, and they are
/// all of it where it is no longer.
pub proof fn law_last_entries(list: Seq<LogView>, n: nat)
    ensures
        last_n(list, n).len() == if list.len() < n {
            list.len()
        } else {
            n
        },
        forall|i: int|
            0 <= i < last_n(list, n).len() ==> (#[trigger] last_n(list, n)[i]) == list[list.len()
                - last_n(list, n).len() + i],
{
}

/// The status shows the newest entries first.
pub proof fn law_newest_entries_first(entries: Seq<LogView>, most: nat)
    ensures
        newest(entries, most).len() == if entries.len() < most {
            entries.len()
        } else {
            most
        },
        forall|i: int|
            0 <= i < newest(entries, most).len() ==> (#[trigger] newest(entries, most)[i])
                == entries[entries.len() - 1 - i],
        crate::settings::STATUS_LOGS == 30,
{
}

/// The history is told as the entries, in order, each with its four texts.
pub proof fn law_history_is_told(list: Seq<LogView>, i: int)
    requires
        0 <= i < list.len(),
    ensures
        history_tree(list) == JsonTree::Object(
            seq![("logs"@, JsonTree::Array(log_trees(list))), ("ok"@, JsonTree::Bool(true))],
        ),
        log_trees(list).len() == list.len(),
        log_trees(list)[i] == JsonTree::Object(
            seq![
                ("key"@, JsonTree::Text(list[i].key)),
                ("result"@, JsonTree::Text(list[i].result)),
                ("time"@, JsonTree::Text(list[i].time)),
                ("title"@, JsonTree::Text(list[i].title)),
            ],
        ),
        log_tree(list[i]) == log_trees(list)[i],
{
}

/// The status is told as the log, and the service with its counts, its limits
/// and its addresses.
pub proof fn law_status_is_told(
    cfg: ConfigView,
    count: i64,
    connections: i64,
    uptime: u64,
    logs: Seq<LogView>,
)
    requires
        count >= 0,
        connections >= 0,
    ensures
        status_tree(service_tree(cfg, count, connections, uptime), logs) == JsonTree::Object(
            seq![
                ("logs"@, JsonTree::Array(log_trees(logs))),
                ("ok"@, JsonTree::Bool(true)),
                (
                    "status"@,
                    JsonTree::Object(
                        seq![
                            ("connections"@, JsonTree::Number(decimal(connections as nat))),
                            ("message_count"@, JsonTree::Number(decimal(count as nat))),
                            ("offline_limit"@, JsonTree::Number(decimal(cfg.offline_limit as nat))),
                            ("offline_messages"@, JsonTree::Bool(cfg.offline_messages)),
                            ("panel_bind"@, JsonTree::Text(cfg.panel_bind)),
                            ("panel_port"@, JsonTree::Number(decimal(cfg.panel_port as nat))),
                            ("server_port"@, JsonTree::Number(decimal(cfg.server_port as nat))),
                            ("status"@, JsonTree::Text(cfg.status)),
                            ("tls"@, JsonTree::Text(cfg.tls)),
                            ("uptime"@, JsonTree::Number(decimal(uptime as nat))),
                        ],
                    ),
                ),
            ],
        ),
{
}

/// The log is seen as it is.
pub proof fn law_logs_are_seen_as_they_are(e: LogEntry, list: Seq<LogEntry>)
    ensures
        e@.time == e.time@,
        e@.key == e.key@,
        e@.title == e.title@,
        e@.result == e.result@,
        log_views(list).len() == list.len(),
        forall|i: int| 0 <= i < list.len() ==> (#[trigger] log_views(list)[i]) == list[i]@,
{
}

// ---- the configuration ----

/// What a new configuration holds.
pub proof fn law_new_configuration()
    ensures
        ConfigView::fresh().config_version == 2,
        ConfigView::fresh().server_port == 3100,
        ConfigView::fresh().panel_port == 3010,
        ConfigView::fresh().panel_bind == "127.0.0.1"@,
        !ConfigView::fresh().public_panel,
        ConfigView::fresh().push_keys == Seq::<JsonTree>::empty(),
        ConfigView::fresh().user == Seq::<char>::empty(),
        ConfigView::fresh().password == Seq::<char>::empty(),
        ConfigView::fresh().pass_hash == Seq::<char>::empty(),
        ConfigView::fresh().admin_user == Seq::<char>::empty(),
        ConfigView::fresh().panel_allowed_ips == Seq::<Seq<char>>::empty(),
        ConfigView::fresh().tls == "none"@,
        ConfigView::fresh().panel_tls == "none"@,
        ConfigView::fresh().status == "start"@,
        ConfigView::fresh().message_count == 0,
        !ConfigView::fresh().offline_messages,
        ConfigView::fresh().offline_limit == 50,
        ConfigView::fresh().session_key == Seq::<char>::empty(),
        !ConfigView::fresh().installed(),
        forall|k: Seq<char>| !(#[trigger] ConfigView::fresh().key_set().contains(k)),
{
    assert(ConfigView::fresh().keys() =~= Seq::<crate::config::KeyView>::empty());
}

/// A configuration that is stored is the one that is used, but for a session
/// key, which it gets where it has none, and for an old version.
pub proof fn law_stored_configuration_is_used(cfg: AppConfig, view: ConfigView, chance: Seq<u8>)
    ensures
        stored_or_fresh(Some(cfg)) == cfg@,
        stored_or_fresh(None) == ConfigView::fresh(),
        view.settled(chance) == (ConfigView {
            session_key: view.settled(chance).session_key,
            config_version: view.settled(chance).config_version,
            ..view
        }),
        view.session_key.len() > 0 ==> view.settled(chance).session_key == view.session_key,
        view.session_key.len() == 0 ==> view.settled(chance).session_key
            == crate::crypto::base64_text(chance),
        view.config_version < 2 ==> view.settled(chance).config_version == 2,
        view.config_version >= 2 ==> view.settled(chance).config_version == view.config_version,
        crate::config::SESSION_KEY_BYTES == 32,
{
}

/// The service is installed once it has a user name and a password, in either
/// form.
pub proof fn law_installed_has_an_administrator(cfg: ConfigView)
    ensures
        cfg.user.len() > 0 && cfg.password.len() > 0 ==> cfg.installed(),
        cfg.admin_user.len() > 0 && cfg.pass_hash.len() > 0 ==> cfg.installed(),
        (cfg.user.len() == 0 || cfg.password.len() == 0) && (cfg.admin_user.len() == 0
            || cfg.pass_hash.len() == 0) ==> !cfg.installed(),
{
}

} // verus!
