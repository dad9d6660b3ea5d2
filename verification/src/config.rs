//! The configuration: its defaults, the push keys in it, and the store that
//! keeps it.

use crate::crypto::{base64_text, random_bytes, use_base64};
use crate::json::{trees, Json, JsonTree};
use crate::text::{same_text, texts};
use crate::third::{items, tree_of};
use vstd::prelude::*;

verus! {

broadcast use vstd::string::group_string_axioms;

/// The version of the configuration format.
pub const CONFIG_VERSION: i64 = 2;

/// How many bytes of chance a session key is made of.
pub const SESSION_KEY_BYTES: usize = 32;

/// A push key, with the temporary key that stands for it and a note.
pub struct PushKey {
    pub key: String,
    pub temp_key: String,
    pub note: String,
}

/// What a `PushKey` holds.
pub struct KeyView {
    pub key: Seq<char>,
    pub temp_key: Seq<char>,
    pub note: Seq<char>,
}

impl View for PushKey {
    type V = KeyView;

    open spec fn view(&self) -> KeyView {
        KeyView { key: self.key@, temp_key: self.temp_key@, note: self.note@ }
    }
}

/// What a list of push keys holds.
pub open spec fn key_views(keys: Seq<PushKey>) -> Seq<KeyView> {
    Seq::new(keys.len(), |i: int| keys[i]@)
}

/// A field that is a string where it is there, and empty where it is not.
pub open spec fn string_field(v: Option<JsonTree>) -> Option<Seq<char>> {
    match v {
        Some(JsonTree::Text(s)) => Some(s),
        Some(_) => None,
        None => Some(Seq::empty()),
    }
}

/// A push key made of three fields, each of them a string.
pub open spec fn key_of_fields(
    key: Option<JsonTree>,
    temp_key: Option<JsonTree>,
    note: Option<JsonTree>,
) -> Option<KeyView> {
    match (string_field(key), string_field(temp_key), string_field(note)) {
        (Some(k), Some(t), Some(n)) => Some(KeyView { key: k, temp_key: t, note: n }),
        _ => None,
    }
}

/// The item at position `i`, where the list is that long.
pub open spec fn item_at(list: Seq<JsonTree>, i: int) -> Option<JsonTree> {
    if 0 <= i < list.len() {
        Some(list[i])
    } else {
        None
    }
}

/// A stored push key: the key alone, an object with the three fields, or a
/// list of the three in order.
pub open spec fn push_key_of(t: JsonTree) -> Option<KeyView> {
    match t {
        JsonTree::Text(s) => Some(KeyView { key: s, temp_key: Seq::empty(), note: Seq::empty() }),
        JsonTree::Object(_) => key_of_fields(
            t.field("key"@),
            t.field("temp_key"@),
            t.field("note"@),
        ),
        JsonTree::Array(list) => if list.len() <= 3 {
            key_of_fields(item_at(list, 0), item_at(list, 1), item_at(list, 2))
        } else {
            None
        },
        _ => None,
    }
}

/// The push keys among stored values; one without a key counts for nothing.
pub open spec fn push_keys_of(list: Seq<JsonTree>) -> Seq<KeyView>
    decreases list.len(),
{
    if list.len() == 0 {
        Seq::empty()
    } else {
        let rest = push_keys_of(list.drop_last());
        match push_key_of(list.last()) {
            Some(k) => if k.key.len() > 0 {
                rest.push(k)
            } else {
                rest
            },
            None => rest,
        }
    }
}

/// The keys that are configured.
pub open spec fn keys_in(list: Seq<KeyView>) -> Set<Seq<char>> {
    Set::new(|k: Seq<char>| exists|i: int| 0 <= i < list.len() && (#[trigger] list[i]).key == k)
}

/// The key of the first entry whose temporary key is `temp_key`.
pub open spec fn key_for_temp(list: Seq<KeyView>, temp_key: Seq<char>) -> Option<Seq<char>>
    decreases list.len(),
{
    if list.len() == 0 {
        None
    } else if list[0].temp_key == temp_key {
        Some(list[0].key)
    } else {
        key_for_temp(list.skip(1), temp_key)
    }
}

fn text_or_empty(v: Option<&Json>) -> (r: Option<String>)
    ensures
        match r {
            Some(s) => string_field(tree_of(v)) == Some(s@),
            None => string_field(tree_of(v)) is None,
        },
{
    match v {
        Some(Json::Text(s)) => Some(s.clone()),
        Some(_) => None,
        None => Some(String::new()),
    }
}

fn key_from_fields(key: Option<&Json>, temp_key: Option<&Json>, note: Option<&Json>) -> (r: Option<
    PushKey,
>)
    ensures
        match r {
            Some(k) => key_of_fields(tree_of(key), tree_of(temp_key), tree_of(note)) == Some(k@),
            None => key_of_fields(tree_of(key), tree_of(temp_key), tree_of(note)) is None,
        },
{
    match (text_or_empty(key), text_or_empty(temp_key), text_or_empty(note)) {
        (Some(k), Some(t), Some(n)) => Some(PushKey { key: k, temp_key: t, note: n }),
        _ => None,
    }
}

fn nth(list: &Vec<Json>, i: usize) -> (r: Option<&Json>)
    ensures
        tree_of(r) == item_at(trees(list@), i as int),
{
    if i < list.len() {
        Some(&list[i])
    } else {
        None
    }
}

impl PushKey {
    /// Reads a stored push key.
    pub fn from_json(v: &Json) -> (r: Option<PushKey>)
        ensures
            match r {
                Some(k) => push_key_of(v@) == Some(k@),
                None => push_key_of(v@) is None,
            },
    {
        match v {
            Json::Text(s) => Some(
                PushKey { key: s.clone(), temp_key: String::new(), note: String::new() },
            ),
            Json::Object(_) => key_from_fields(v.field("key"), v.field("temp_key"), v.field("note")),
            Json::Array(_) => match items(Some(v)) {
                Some(list) => if list.len() <= 3 {
                    key_from_fields(nth(list, 0), nth(list, 1), nth(list, 2))
                } else {
                    None
                },
                None => None,
            },
            _ => None,
        }
    }
}

/// The configuration of the service.
pub struct AppConfig {
    pub config_version: i64,
    /// The port of the message service.
    pub server_port: u16,
    /// The port of the panel.
    pub panel_port: u16,
    /// The address that the panel listens on.
    pub panel_bind: String,
    /// Whether the panel can also be reached at the public port.
    pub public_panel: bool,
    /// The push keys as they are stored.
    pub push_keys: Vec<Json>,
    /// The salted MD5 of the user name.
    pub user: String,
    /// The salted MD5 of the password.
    pub password: String,
    /// The bcrypt hash of the password.
    pub pass_hash: String,
    /// The user name.
    pub admin_user: String,
    /// The addresses that may reach the panel; none means all.
    pub panel_allowed_ips: Vec<String>,
    /// TLS of the message service: `none`, `public` or `self`.
    pub tls: String,
    /// TLS of the panel: `none` or `tls`.
    pub panel_tls: String,
    /// Whether the message service runs: `start` or `stop`.
    pub status: String,
    pub message_count: i64,
    /// Whether messages that nobody is there to receive are kept.
    pub offline_messages: bool,
    /// How many of them are kept for each key.
    pub offline_limit: usize,
    /// The key that sessions are signed with, in base64.
    pub session_key: String,
}

/// What an `AppConfig` holds.
#[verifier::ext_equal]
pub struct ConfigView {
    pub config_version: i64,
    pub server_port: u16,
    pub panel_port: u16,
    pub panel_bind: Seq<char>,
    pub public_panel: bool,
    pub push_keys: Seq<JsonTree>,
    pub user: Seq<char>,
    pub password: Seq<char>,
    pub pass_hash: Seq<char>,
    pub admin_user: Seq<char>,
    pub panel_allowed_ips: Seq<Seq<char>>,
    pub tls: Seq<char>,
    pub panel_tls: Seq<char>,
    pub status: Seq<char>,
    pub message_count: i64,
    pub offline_messages: bool,
    pub offline_limit: usize,
    pub session_key: Seq<char>,
}

impl View for AppConfig {
    type V = ConfigView;

    open spec fn view(&self) -> ConfigView {
        ConfigView {
            config_version: self.config_version,
            server_port: self.server_port,
            panel_port: self.panel_port,
            panel_bind: self.panel_bind@,
            public_panel: self.public_panel,
            push_keys: trees(self.push_keys@),
            user: self.user@,
            password: self.password@,
            pass_hash: self.pass_hash@,
            admin_user: self.admin_user@,
            panel_allowed_ips: texts(self.panel_allowed_ips@),
            tls: self.tls@,
            panel_tls: self.panel_tls@,
            status: self.status@,
            message_count: self.message_count,
            offline_messages: self.offline_messages,
            offline_limit: self.offline_limit,
            session_key: self.session_key@,
        }
    }
}

impl ConfigView {
    /// Whether there is an administrator.
    pub open spec fn installed(self) -> bool {
        let migrated = self.user.len() > 0 && self.password.len() > 0;
        migrated || (self.admin_user.len() > 0 && self.pass_hash.len() > 0)
    }

    /// The push keys.
    pub open spec fn keys(self) -> Seq<KeyView> {
        push_keys_of(self.push_keys)
    }

    /// The keys that may be published and subscribed to.
    pub open spec fn key_set(self) -> Set<Seq<char>> {
        keys_in(self.keys())
    }

    /// The push key that a temporary key stands for.
    pub open spec fn find_by_temp_key(self, temp_key: Seq<char>) -> Option<Seq<char>> {
        if temp_key.len() == 0 {
            None
        } else {
            key_for_temp(self.keys(), temp_key)
        }
    }

    /// The configuration that nothing has been set in.
    pub open spec fn fresh() -> ConfigView {
        ConfigView {
            config_version: CONFIG_VERSION,
            server_port: 3100,
            panel_port: 3010,
            panel_bind: "127.0.0.1"@,
            public_panel: false,
            push_keys: Seq::empty(),
            user: Seq::empty(),
            password: Seq::empty(),
            pass_hash: Seq::empty(),
            admin_user: Seq::empty(),
            panel_allowed_ips: Seq::empty(),
            tls: "none"@,
            panel_tls: "none"@,
            status: "start"@,
            message_count: 0,
            offline_messages: false,
            offline_limit: 50,
            session_key: Seq::empty(),
        }
    }

    /// The configuration as it is taken into service: with a session key, made
    /// of `chance` where there was none, and at least at the current version.
    pub open spec fn settled(self, chance: Seq<u8>) -> ConfigView {
        ConfigView {
            session_key: if self.session_key.len() == 0 {
                base64_text(chance)
            } else {
                self.session_key
            },
            config_version: if self.config_version < CONFIG_VERSION {
                CONFIG_VERSION
            } else {
                self.config_version
            },
            ..self
        }
    }
}

pub fn default_config_version() -> (r: i64)
    ensures
        r == ConfigView::fresh().config_version,
{
    CONFIG_VERSION
}

pub fn default_server_port() -> (r: u16)
    ensures
        r == ConfigView::fresh().server_port,
{
    3100
}

pub fn default_panel_port() -> (r: u16)
    ensures
        r == ConfigView::fresh().panel_port,
{
    3010
}

pub fn default_panel_bind() -> (r: String)
    ensures
        r@ == ConfigView::fresh().panel_bind,
{
    "127.0.0.1".to_string()
}

pub fn default_tls() -> (r: String)
    ensures
        r@ == ConfigView::fresh().tls,
{
    "none".to_string()
}

pub fn default_panel_tls() -> (r: String)
    ensures
        r@ == ConfigView::fresh().panel_tls,
{
    "none".to_string()
}

pub fn default_status() -> (r: String)
    ensures
        r@ == ConfigView::fresh().status,
{
    "start".to_string()
}

pub fn default_offline_limit() -> (r: usize)
    ensures
        r == ConfigView::fresh().offline_limit,
{
    50
}

impl Default for AppConfig {
    fn default() -> (r: AppConfig)
        ensures
            r@ == ConfigView::fresh(),
    {
        let r = AppConfig {
            config_version: default_config_version(),
            server_port: default_server_port(),
            panel_port: default_panel_port(),
            panel_bind: default_panel_bind(),
            public_panel: false,
            push_keys: Vec::new(),
            user: String::new(),
            password: String::new(),
            pass_hash: String::new(),
            admin_user: String::new(),
            panel_allowed_ips: Vec::new(),
            tls: default_tls(),
            panel_tls: default_panel_tls(),
            status: default_status(),
            message_count: 0,
            offline_messages: false,
            offline_limit: default_offline_limit(),
            session_key: String::new(),
        };
        assert(r@ =~= ConfigView::fresh());
        r
    }
}

/// Copies a list of values.
pub fn copy_values(list: &Vec<Json>) -> (r: Vec<Json>)
    ensures
        trees(r@) == trees(list@),
{
    let mut out: Vec<Json> = Vec::new();
    let mut i: usize = 0;
    while i < list.len()
        invariant
            i <= list@.len(),
            out@.len() == i,
            forall|k: int| 0 <= k < i ==> (#[trigger] out@[k])@ == list@[k]@,
        decreases list@.len() - i,
    {
        out.push(list[i].copy());
        i = i + 1;
    }
    assert(trees(out@) =~= trees(list@));
    out
}

/// Copies a list of strings.
pub fn copy_texts(list: &Vec<String>) -> (r: Vec<String>)
    ensures
        texts(r@) == texts(list@),
{
    let mut out: Vec<String> = Vec::new();
    let mut i: usize = 0;
    while i < list.len()
        invariant
            i <= list@.len(),
            out@.len() == i,
            forall|k: int| 0 <= k < i ==> (#[trigger] out@[k])@ == list@[k]@,
        decreases list@.len() - i,
    {
        out.push(list[i].clone());
        i = i + 1;
    }
    assert(texts(out@) =~= texts(list@));
    out
}

/// Whether a text stands in a list.
pub fn has_text_in(list: &Vec<String>, text: &str) -> (r: bool)
    ensures
        r == texts(list@).contains(text@),
{
    let mut i: usize = 0;
    while i < list.len()
        invariant
            i <= list@.len(),
            forall|k: int| 0 <= k < i ==> (#[trigger] list@[k])@ != text@,
        decreases list@.len() - i,
    {
        if same_text(list[i].as_str(), text) {
            assert(texts(list@)[i as int] == text@);
            return true;
        }
        i = i + 1;
    }
    assert forall|k: int| 0 <= k < texts(list@).len() implies texts(list@)[k] != text@ by {
        assert(list@[k]@ != text@);
    }
    false
}

impl AppConfig {
    /// Whether there is an administrator.
    pub fn installed(&self) -> (r: bool)
        ensures
            r == self@.installed(),
    {
        let migrated = !self.user.as_str().is_empty() && !self.password.as_str().is_empty();
        if !self.admin_user.as_str().is_empty() {
            return !self.pass_hash.as_str().is_empty() || migrated;
        }
        migrated
    }

    /// The push keys, in one form.
    pub fn push_keys(&self) -> (r: Vec<PushKey>)
        ensures
            key_views(r@) == self@.keys(),
    {
        let mut out: Vec<PushKey> = Vec::new();
        let mut i: usize = 0;
        let ghost all = trees(self.push_keys@);
        assert(all.take(0) == Seq::<JsonTree>::empty());
        assert(key_views(out@) == Seq::<KeyView>::empty());
        while i < self.push_keys.len()
            invariant
                all == trees(self.push_keys@),
                i <= self.push_keys@.len(),
                key_views(out@) == push_keys_of(all.take(i as int)),
            decreases self.push_keys@.len() - i,
        {
            assert(all.take(i + 1).drop_last() == all.take(i as int));
            match PushKey::from_json(&self.push_keys[i]) {
                Some(k) => {
                    if !k.key.as_str().is_empty() {
                        let ghost before = out@;
                        out.push(k);
                        assert(key_views(out@) == key_views(before).push(k@));
                    }
                },
                None => {},
            }
            i = i + 1;
        }
        assert(all.take(i as int) == all);
        out
    }

    /// The keys that may be published and subscribed to, each of them once.
    pub fn key_set(&self) -> (r: Vec<String>)
        ensures
            forall|k: Seq<char>| #[trigger] texts(r@).contains(k) <==> self@.key_set().contains(k),
            texts(r@).no_duplicates(),
    {
        let keys = self.push_keys();
        let ghost all = self@.keys();
        let mut out: Vec<String> = Vec::new();
        let mut i: usize = 0;
        while i < keys.len()
            invariant
                all == key_views(keys@),
                i <= keys@.len(),
                forall|k: Seq<char>| #[trigger]
                    texts(out@).contains(k) <==> (exists|j: int|
                        0 <= j < i && (#[trigger] all[j]).key == k),
                texts(out@).no_duplicates(),
            decreases keys@.len() - i,
        {
            let key = &keys[i].key;
            assert(all[i as int].key == key@);
            let ghost before = texts(out@);
            if !has_text_in(&out, key.as_str()) {
                out.push(key.clone());
                assert(texts(out@) == before.push(key@));
                assert forall|k: Seq<char>| #[trigger] texts(out@).contains(k) <==> (before.contains(
                    k,
                ) || k == key@) by {
                    if before.contains(k) {
                        let j = choose|j: int| 0 <= j < before.len() && before[j] == k;
                        assert(texts(out@)[j] == k);
                    }
                    assert(texts(out@)[before.len() as int] == key@);
                    if texts(out@).contains(k) {
                        let j = choose|j: int| 0 <= j < texts(out@).len() && texts(out@)[j] == k;
                        assert(j < before.len() ==> before[j] == k);
                    }
                }
            }
            assert forall|k: Seq<char>| #[trigger] texts(out@).contains(k) <==> (exists|j: int|
                0 <= j < i + 1 && (#[trigger] all[j]).key == k) by {
                if before.contains(k) {
                    let j = choose|j: int| 0 <= j < i && (#[trigger] all[j]).key == k;
                    assert(all[j].key == k);
                }
            }
            i = i + 1;
        }
        out
    }

    /// The push key that a temporary key stands for.
    pub fn find_by_temp_key(&self, temp_key: &str) -> (r: Option<String>)
        ensures
            match r {
                Some(k) => self@.find_by_temp_key(temp_key@) == Some(k@),
                None => self@.find_by_temp_key(temp_key@) is None,
            },
    {
        if temp_key.is_empty() {
            return None;
        }
        let keys = self.push_keys();
        let ghost all = self@.keys();
        let mut i: usize = 0;
        assert(all.skip(0) == all);
        while i < keys.len()
            invariant
                all == key_views(keys@),
                all == self@.keys(),
                temp_key@.len() > 0,
                i <= keys@.len(),
                key_for_temp(all, temp_key@) == key_for_temp(all.skip(i as int), temp_key@),
            decreases keys@.len() - i,
        {
            assert(all.skip(i as int)[0] == keys@[i as int]@);
            if same_text(keys[i].temp_key.as_str(), temp_key) {
                return Some(keys[i].key.clone());
            }
            assert(all.skip(i as int).skip(1) == all.skip(i + 1));
            i = i + 1;
        }
        None
    }

    /// The same configuration again.
    pub fn copy(&self) -> (r: AppConfig)
        ensures
            r@ == self@,
    {
        AppConfig {
            config_version: self.config_version,
            server_port: self.server_port,
            panel_port: self.panel_port,
            panel_bind: self.panel_bind.clone(),
            public_panel: self.public_panel,
            push_keys: copy_values(&self.push_keys),
            user: self.user.clone(),
            password: self.password.clone(),
            pass_hash: self.pass_hash.clone(),
            admin_user: self.admin_user.clone(),
            panel_allowed_ips: copy_texts(&self.panel_allowed_ips),
            tls: self.tls.clone(),
            panel_tls: self.panel_tls.clone(),
            status: self.status.clone(),
            message_count: self.message_count,
            offline_messages: self.offline_messages,
            offline_limit: self.offline_limit,
            session_key: self.session_key.clone(),
        }
    }

    /// Takes a configuration into service, with `chance` for a session key
    /// where there is none.
    pub fn settle(self, chance: &[u8]) -> (r: AppConfig)
        ensures
            r@ == self@.settled(chance@),
    {
        let mut cfg = self;
        if cfg.session_key.as_str().is_empty() {
            cfg.session_key = use_base64(chance);
        }
        if cfg.config_version < CONFIG_VERSION {
            cfg.config_version = CONFIG_VERSION;
        }
        assert(cfg@ =~= self@.settled(chance@));
        cfg
    }
}

/// A stored configuration, or a fresh one where there is none.
pub open spec fn stored_or_fresh(stored: Option<AppConfig>) -> ConfigView {
    match stored {
        Some(cfg) => cfg@,
        None => ConfigView::fresh(),
    }
}

proof fn lemma_keys_filled(list: Seq<JsonTree>)
    ensures
        forall|i: int|
            0 <= i < push_keys_of(list).len() ==> (#[trigger] push_keys_of(list)[i]).key.len() > 0,
    decreases list.len(),
{
    if list.len() > 0 {
        let rest = push_keys_of(list.drop_last());
        lemma_keys_filled(list.drop_last());
        assert forall|i: int| 0 <= i < push_keys_of(list).len() implies (
        #[trigger] push_keys_of(list)[i]).key.len() > 0 by {
            if i < rest.len() {
                assert(push_keys_of(list)[i] == rest[i]);
            }
        }
    }
}

/// An empty key is never configured.
pub proof fn law_keys_are_not_empty(cfg: ConfigView)
    ensures
        !cfg.key_set().contains(Seq::empty()),
{
    lemma_keys_filled(cfg.push_keys);
}

proof fn lemma_key_for_temp(list: Seq<KeyView>, temp_key: Seq<char>)
    requires
        key_for_temp(list, temp_key) is Some,
    ensures
        keys_in(list).contains(key_for_temp(list, temp_key)->Some_0),
    decreases list.len(),
{
    if list[0].temp_key != temp_key {
        let rest = list.skip(1);
        lemma_key_for_temp(rest, temp_key);
        let key = key_for_temp(list, temp_key)->Some_0;
        let i = choose|i: int| 0 <= i < rest.len() && (#[trigger] rest[i]).key == key;
        assert(list[i + 1].key == key);
    }
}

/// A temporary key stands for a configured key, or for none.
pub proof fn law_temp_key_names_a_configured_key(cfg: ConfigView, temp_key: Seq<char>)
    requires
        cfg.find_by_temp_key(temp_key) is Some,
    ensures
        cfg.key_set().contains(cfg.find_by_temp_key(temp_key)->Some_0),
{
    lemma_key_for_temp(cfg.keys(), temp_key);
}

/// A configuration that was in service comes back as it was: starting again
/// makes no new session key.
pub proof fn law_settled_configuration_stays(cfg: ConfigView, chance: Seq<u8>, other: Seq<u8>)
    requires
        chance.len() > 0,
    ensures
        cfg.settled(chance).settled(other) == cfg.settled(chance),
{
    reveal_with_fuel(base64_text, 2);
}

/// The configuration in service, and the count of messages since.
pub struct ConfigStore {
    cache: AppConfig,
    message_count: i64,
}

impl ConfigStore {
    /// The configuration in service.
    pub closed spec fn config(&self) -> ConfigView {
        self.cache@
    }

    /// The count of messages.
    pub closed spec fn count(&self) -> i64 {
        self.message_count
    }

    /// Puts a stored configuration into service, or a fresh one where none
    /// could be read.
    pub fn load(stored: Option<AppConfig>) -> (r: ConfigStore)
        ensures
            exists|chance: Seq<u8>|
                chance.len() == SESSION_KEY_BYTES && r.config() == #[trigger] stored_or_fresh(
                    stored,
                ).settled(chance),
            r.count() == r.config().message_count,
    {
        let base = match stored {
            Some(cfg) => cfg,
            None => AppConfig::default(),
        };
        let chance = random_bytes(SESSION_KEY_BYTES);
        let cfg = base.settle(chance.as_slice());
        let message_count = cfg.message_count;
        assert(cfg@ == stored_or_fresh(stored).settled(chance@));
        ConfigStore { cache: cfg, message_count }
    }

    /// The configuration in service.
    pub fn get(&self) -> (r: &AppConfig)
        ensures
            r@ == self.config(),
    {
        &self.cache
    }

    /// A copy of the configuration to change, with the current count.
    pub fn draft(&self) -> (r: AppConfig)
        ensures
            r@ == (ConfigView { message_count: self.count(), ..self.config() }),
    {
        let mut cfg = self.cache.copy();
        cfg.message_count = self.message_count;
        cfg
    }

    /// Puts a changed configuration into service once it has been saved; where
    /// it could not be saved, the old one stays.
    pub fn update(&mut self, cfg: AppConfig, saved: Result<(), String>) -> (r: Result<(), String>)
        ensures
            r == saved,
            saved is Ok ==> final(self).config() == cfg@,
            saved is Err ==> final(self).config() == old(self).config(),
            final(self).count() == old(self).count(),
    {
        if saved.is_ok() {
            self.cache = cfg;
        }
        saved
    }

    /// Counts `n` more messages; the count wraps around.
    pub fn incr_message_count(&mut self, n: i64)
        ensures
            final(self).count() == old(self).count().wrapping_add(n),
            final(self).config() == old(self).config(),
    {
        self.message_count = self.message_count.wrapping_add(n);
    }

    /// The count of messages.
    pub fn message_count(&self) -> (r: i64)
        ensures
            r == self.count(),
    {
        self.message_count
    }
}

} // verus!
