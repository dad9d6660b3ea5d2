//! Who may use the panel: the administrator's password, signed sessions and
//! the limit on failed logins.

use crate::clock::{instant_nanos, nanos_between, unix_seconds, unix_seconds_of};
use crate::config::{AppConfig, ConfigView};
use crate::crypto::{
    base64_data, base64_text, bcrypt_hash, bcrypt_matches, bcrypt_verify, hmac_sha256,
    is_hash_text, is_randomness_reason, is_url_safe, lemma_base64_alphabet,
    lemma_base64_reads_back, md5_hex, md5_hex_of, read_base64, sign, signature, use_base64,
};
use crate::text::{
    chars_of, decimal, decimal_text, find, find_char, is_digit, is_hex_digit,
    lemma_bytes_tell_texts_apart, lemma_decimal_reads_back, lemma_find_is, lemma_hex_digits,
    parse_unsigned, same_text, split, string_view, text_of, unsigned_up_to, utf8_text,
};
use std::time::{Instant, SystemTime};
use vstd::prelude::*;
use vstd::slice::slice_to_vec;
use vstd::string::*;
use vstd::utf8::*;

verus! {

broadcast use vstd::string::group_string_axioms;

/// The name of the session cookie.
pub const SESSION_COOKIE: &'static str = "pushme_session";

/// How long a session lasts: seven days.
pub const SESSION_TTL_SECS: u64 = 604_800;

/// How many logins may fail before the panel is locked.
pub const MAX_LOGIN_FAILS: u32 = 5;

/// How long the panel is locked: three minutes, in nanoseconds.
pub const LOGIN_LOCK_NANOS: u128 = 180_000_000_000;

/// A second, in nanoseconds.
pub const SECOND_NANOS: u128 = 1_000_000_000;

/// The latest time that a lock can end at: just before 2^64 seconds.
pub const LATEST_NANOS: u128 = 18_446_744_073_709_551_615_999_999_999;

// ---- passwords ----

/// The salted MD5 of a text, in three layers.
pub open spec fn md5_pushme_of(s: Seq<char>) -> Seq<char> {
    let salt = "pushme"@;
    let a = md5_hex_of(s + salt);
    let b = md5_hex_of(salt + a + salt);
    md5_hex_of(salt + b)
}

/// The salted MD5 of a text, in three layers.
pub fn md5_pushme(input: &str) -> (r: String)
    ensures
        r@ == md5_pushme_of(input@),
        r@.len() == 32,
{
    let mut a = input.to_string();
    a.append("pushme");
    let a = md5_hex(a.as_str());
    let mut b = "pushme".to_string();
    b.append(a.as_str());
    b.append("pushme");
    let b = md5_hex(b.as_str());
    let mut c = "pushme".to_string();
    c.append(b.as_str());
    md5_hex(c.as_str())
}

/// The configuration with an administrator whose password has the given hash.
pub open spec fn with_admin(
    cfg: ConfigView,
    username: Seq<char>,
    password: Seq<char>,
    hash: Seq<char>,
) -> ConfigView {
    ConfigView {
        admin_user: username,
        pass_hash: hash,
        user: md5_pushme_of(username),
        password: md5_pushme_of(password),
        ..cfg
    }
}

/// Enters an administrator, once the password has been hashed.
pub fn install_hashed(
    cfg: &mut AppConfig,
    username: &str,
    password: &str,
    hashed: Result<String, String>,
) -> (r: Result<(), String>)
    ensures
        match hashed {
            Ok(hash) => r is Ok && final(cfg)@ == with_admin(
                old(cfg)@,
                username@,
                password@,
                hash@,
            ),
            Err(e) => r is Err && r->Err_0 == e && final(cfg)@ == old(cfg)@,
        },
{
    match hashed {
        Ok(hash) => {
            cfg.admin_user = username.to_string();
            cfg.pass_hash = hash;
            cfg.user = md5_pushme(username);
            cfg.password = md5_pushme(password);
            Ok(())
        },
        Err(e) => Err(e),
    }
}

/// Enters an administrator.
pub fn install(cfg: &mut AppConfig, username: &str, password: &str) -> (r: Result<(), String>)
    ensures
        r is Ok ==> exists|hash: Seq<char>| #[trigger]
            bcrypt_matches(password@, hash) && is_hash_text(hash) && final(cfg)@ == with_admin(
                old(cfg)@,
                username@,
                password@,
                hash,
            ),
        r matches Err(e) ==> is_randomness_reason(e@) && final(cfg)@ == old(cfg)@,
{
    let hashed = bcrypt_hash(password);
    install_hashed(cfg, username, password, hashed)
}

/// Whether a name is the administrator's.
pub open spec fn is_admin(cfg: ConfigView, username: Seq<char>) -> bool {
    if cfg.admin_user.len() > 0 {
        username == cfg.admin_user
    } else {
        md5_pushme_of(username) == cfg.user
    }
}

/// Whether a password is the administrator's: by its bcrypt hash, or by its
/// salted MD5 where it has none yet.
pub open spec fn is_password(cfg: ConfigView, password: Seq<char>) -> bool {
    if cfg.pass_hash.len() > 0 {
        bcrypt_matches(password, cfg.pass_hash)
    } else {
        md5_pushme_of(password) == cfg.password
    }
}

/// Whether a login succeeds.
pub open spec fn login_ok(cfg: ConfigView, username: Seq<char>, password: Seq<char>) -> bool {
    cfg.installed() && is_admin(cfg, username) && is_password(cfg, password)
}

/// Keeps a new hash of the password, where there is one.
pub fn keep_hash(cfg: &mut AppConfig, hashed: Result<String, String>)
    ensures
        final(cfg)@ == match hashed {
            Ok(hash) => (ConfigView { pass_hash: hash@, ..old(cfg)@ }),
            Err(_) => old(cfg)@,
        },
{
    match hashed {
        Ok(hash) => {
            cfg.pass_hash = hash;
        },
        Err(_) => {},
    }
}

/// Checks a login. A password that is known by its salted MD5 alone gets a
/// bcrypt hash, unless none can be made.
pub fn verify_login(cfg: &mut AppConfig, username: &str, password: &str) -> (r: Result<
    (),
    &'static str,
>)
    ensures
        r is Ok <==> login_ok(old(cfg)@, username@, password@),
        r is Err ==> final(cfg)@ == old(cfg)@ && r->Err_0@ == if old(cfg)@.installed() {
            "账号或密码错误"@
        } else {
            "系统未安装"@
        },
        r is Ok && old(cfg)@.pass_hash.len() > 0 ==> final(cfg)@ == old(cfg)@,
        r is Ok && old(cfg)@.pass_hash.len() == 0 ==> final(cfg)@ == old(cfg)@ || exists|
            hash: Seq<char>,
        | #[trigger]
            bcrypt_matches(password@, hash) && hash.len() == 60 && final(cfg)@ == (ConfigView {
                pass_hash: hash,
                ..old(cfg)@
            }),
{
    if !cfg.installed() {
        return Err("系统未安装");
    }
    let user_ok = if !cfg.admin_user.as_str().is_empty() {
        same_text(username, cfg.admin_user.as_str())
    } else {
        same_text(md5_pushme(username).as_str(), cfg.user.as_str())
    };
    if !user_ok {
        return Err("账号或密码错误");
    }
    if !cfg.pass_hash.as_str().is_empty() {
        if !bcrypt_verify(password, cfg.pass_hash.as_str()) {
            return Err("账号或密码错误");
        }
        return Ok(());
    }
    if !same_text(md5_pushme(password).as_str(), cfg.password.as_str()) {
        return Err("账号或密码错误");
    }
    let hashed = bcrypt_hash(password);
    keep_hash(cfg, hashed);
    Ok(())
}

/// The administrator that was entered can log in, with the password that was
/// entered and by its hash. (An empty name is known by its digest, and a digest
/// is not empty.)
pub proof fn law_login_after_install(
    cfg: ConfigView,
    username: Seq<char>,
    password: Seq<char>,
    hash: Seq<char>,
)
    requires
        username.len() > 0 || md5_pushme_of(username).len() > 0 && md5_pushme_of(password).len()
            > 0,
        hash.len() > 0,
        bcrypt_matches(password, hash),
    ensures
        with_admin(cfg, username, password, hash).installed(),
        login_ok(with_admin(cfg, username, password, hash), username, password),
{
}

/// A login that gave the password its bcrypt hash succeeds again, by the hash.
pub proof fn law_login_after_upgrade(
    cfg: ConfigView,
    username: Seq<char>,
    password: Seq<char>,
    hash: Seq<char>,
)
    requires
        login_ok(cfg, username, password),
        hash.len() > 0,
        bcrypt_matches(password, hash),
    ensures
        login_ok(ConfigView { pass_hash: hash, ..cfg }, username, password),
{
}

/// A configuration that knows user and password by their salted MD5 alone
/// lets that user in.
pub proof fn law_digests_alone_let_in(cfg: ConfigView, username: Seq<char>, password: Seq<char>)
    requires
        cfg.admin_user.len() == 0,
        cfg.pass_hash.len() == 0,
        cfg.user.len() > 0,
        cfg.password.len() > 0,
    ensures
        login_ok(cfg, username, password) <==> cfg.user == md5_pushme_of(username) && cfg.password
            == md5_pushme_of(password),
{
}

/// Nobody but the administrator can log in.
pub proof fn law_strangers_cannot_log_in(cfg: ConfigView, username: Seq<char>, password: Seq<char>)
    requires
        cfg.admin_user.len() > 0,
        username != cfg.admin_user,
    ensures
        !login_ok(cfg, username, password),
{
}

// ---- sessions ----

/// Sessions: tokens that are signed with a key.
pub struct Sessions {
    key: Vec<u8>,
}

/// The key that a configured session key stands for: its bytes in base64, or
/// else the text itself, or else a fixed key.
pub open spec fn session_key_of(text: Seq<char>) -> Seq<u8> {
    let key = match base64_data(text) {
        Some(data) => data,
        None => encode_utf8(text),
    };
    if key.len() == 0 {
        encode_utf8("pushme-default"@)
    } else {
        key
    }
}

/// The signed part of a token.
pub open spec fn token_payload(username: Seq<char>, exp: nat) -> Seq<char> {
    base64_text(encode_utf8(username)) + "."@ + decimal(exp)
}

/// The token of a session that lasts until the given second.
pub open spec fn token_of(key: Seq<u8>, username: Seq<char>, exp: nat) -> Seq<char> {
    let payload = token_payload(username, exp);
    payload + "."@ + signature(key, payload)
}

/// What comes of making the token of a session that begins at the given second:
/// the token, with a signature of sixty-four digits, where the second at which
/// it ends can be written, and an error otherwise.
pub open spec fn issued(
    key: Seq<u8>,
    username: Seq<char>,
    now: int,
    r: Result<String, String>,
) -> bool {
    let exp = (now + SESSION_TTL_SECS) as nat;
    match r {
        Ok(token) => {
            &&& now + SESSION_TTL_SECS <= u64::MAX
            &&& token@ == token_of(key, username, exp)
            &&& signature(key, token_payload(username, exp)).len() == 64
        },
        Err(e) => now + SESSION_TTL_SECS > u64::MAX && e@ == "clock out of range"@,
    }
}

/// The three parts of a token: the text before the first dot, the text up to
/// the second, and all the rest.
pub open spec fn token_parts(token: Seq<char>) -> Option<(Seq<char>, Seq<char>, Seq<char>)> {
    let i = find(token, '.');
    if i < token.len() {
        let rest = token.skip(i + 1);
        let j = find(rest, '.');
        if j < rest.len() {
            Some((token.take(i), rest.take(j), rest.skip(j + 1)))
        } else {
            None
        }
    } else {
        None
    }
}

/// The user that a token stands for at the given second.
pub open spec fn token_user(key: Seq<u8>, token: Seq<char>, now: nat) -> Option<Seq<char>> {
    match token_parts(token) {
        Some((user, exp, sig)) => if sig == signature(key, user + "."@ + exp) {
            match (unsigned_up_to(exp, u64::MAX as nat), base64_data(user)) {
                (Some(until), Some(data)) => if now < until && valid_utf8(data) && decode_utf8(
                    data,
                ).len() > 0 {
                    Some(decode_utf8(data))
                } else {
                    None
                },
                _ => None,
            }
        } else {
            None
        },
        None => None,
    }
}

/// Compares bytes in a time that depends on their number alone.
pub fn constant_time_eq(a: &[u8], b: &[u8]) -> (r: bool)
    ensures
        r == (a@ == b@),
{
    if a.len() != b.len() {
        return false;
    }
    let mut diff: u8 = 0;
    let mut i: usize = 0;
    while i < a.len()
        invariant
            a@.len() == b@.len(),
            i <= a@.len(),
            diff == 0 <==> (forall|k: int| 0 <= k < i ==> a@[k] == b@[k]),
        decreases a@.len() - i,
    {
        let x = a[i];
        let y = b[i];
        assert((diff | (x ^ y)) == 0 <==> (diff == 0 && x == y)) by (bit_vector);
        diff = diff | (x ^ y);
        i = i + 1;
    }
    assert(diff == 0 ==> a@ =~= b@);
    diff == 0
}

impl Sessions {
    /// The key.
    pub closed spec fn secret(&self) -> Seq<u8> {
        self.key@
    }

    /// Sessions under a configured session key.
    pub fn new(session_key_b64: &str) -> (r: Sessions)
        ensures
            r.secret() == session_key_of(session_key_b64@),
    {
        let key = match read_base64(session_key_b64) {
            Some(data) => data,
            None => slice_to_vec(session_key_b64.as_bytes()),
        };
        if key.len() == 0 {
            Sessions { key: slice_to_vec("pushme-default".as_bytes()) }
        } else {
            Sessions { key }
        }
    }

    /// Makes the token of a session that begins at the given second.
    pub fn issue_at(&self, username: &str, now: u64) -> (r: String)
        requires
            now + SESSION_TTL_SECS <= u64::MAX,
        ensures
            r@ == token_of(self.secret(), username@, (now + SESSION_TTL_SECS) as nat),
            signature(
                self.secret(),
                token_payload(username@, (now + SESSION_TTL_SECS) as nat),
            ).len() == 64,
    {
        let mut payload = use_base64(username.as_bytes());
        payload.append(".");
        let exp = decimal_text(now + SESSION_TTL_SECS);
        payload.append(exp.as_str());
        let sig = sign(self.key.as_slice(), payload.as_str());
        let mut token = payload;
        token.append(".");
        token.append(sig.as_str());
        token
    }

    /// Makes the token of a session that begins at the given second, unless it
    /// would end after all time.
    pub fn issue_checked(&self, username: &str, now: u64) -> (r: Result<String, String>)
        ensures
            issued(self.secret(), username@, now as int, r),
    {
        if now > u64::MAX - SESSION_TTL_SECS {
            return Err("clock out of range".to_string());
        }
        Ok(self.issue_at(username, now))
    }

    /// Makes the token of a session that begins now.
    pub fn issue(&self, username: &str) -> (r: Result<String, String>)
        ensures
            exists|t: SystemTime|
                issued(self.secret(), username@, #[trigger] unix_seconds_of(t), r),
    {
        self.issue_checked(username, unix_seconds())
    }

    /// The user that a token stands for at the given second.
    pub fn verify_at(&self, token: &str, now: u64) -> (r: Option<String>)
        ensures
            match r {
                Some(user) => token_user(self.secret(), token@, now as nat) == Some(user@),
                None => token_user(self.secret(), token@, now as nat) is None,
            },
    {
        let cs = chars_of(token);
        let i = find_char(cs.as_slice(), 0, '.');
        assert(cs@.skip(0) =~= token@);
        if i == cs.len() {
            return None;
        }
        let j = find_char(cs.as_slice(), i + 1, '.');
        if j == cs.len() {
            return None;
        }
        let user = text_of(cs.as_slice(), 0, i);
        let exp = text_of(cs.as_slice(), i + 1, j);
        let sig = text_of(cs.as_slice(), j + 1, cs.len());
        proof {
            let rest = token@.skip(i + 1);
            assert(user@ =~= token@.take(i as int));
            assert(exp@ =~= rest.take(j - i - 1));
            assert(sig@ =~= rest.skip(j - i));
            assert(token_parts(token@) == Some((user@, exp@, sig@)));
        }
        let mut payload = user.clone();
        payload.append(".");
        payload.append(exp.as_str());
        let expected = sign(self.key.as_slice(), payload.as_str());
        proof {
            lemma_bytes_tell_texts_apart(sig@, expected@);
        }
        if !constant_time_eq(sig.as_str().as_bytes(), expected.as_str().as_bytes()) {
            return None;
        }
        let until = match parse_unsigned(exp.as_str(), u64::MAX) {
            Some(n) => n,
            None => {
                return None;
            },
        };
        if now >= until {
            return None;
        }
        let data = match read_base64(user.as_str()) {
            Some(data) => data,
            None => {
                return None;
            },
        };
        let name = match utf8_text(data.as_slice()) {
            Some(name) => name,
            None => {
                return None;
            },
        };
        if name.as_str().is_empty() {
            return None;
        }
        Some(name)
    }

    /// The user that a token stands for now.
    pub fn verify(&self, token: &str) -> (r: Option<String>)
        ensures
            exists|t: SystemTime|
                string_view(r) == token_user(
                    self.secret(),
                    token@,
                    (#[trigger] unix_seconds_of(t)) as nat,
                ),
    {
        self.verify_at(token, unix_seconds())
    }
}

proof fn lemma_decimal_digits(n: nat)
    ensures
        forall|i: int| 0 <= i < decimal(n).len() ==> is_digit(#[trigger] decimal(n)[i]),
        decimal(n).len() > 0,
    decreases n,
{
    if n >= 10 {
        lemma_decimal_digits(n / 10);
    }
}

proof fn lemma_token_parts(key: Seq<u8>, username: Seq<char>, exp: nat)
    ensures
        token_parts(token_of(key, username, exp)) == Some(
            (
                base64_text(encode_utf8(username)),
                decimal(exp),
                signature(key, token_payload(username, exp)),
            ),
        ),
{
    let user = base64_text(encode_utf8(username));
    let digits = decimal(exp);
    let sig = signature(key, token_payload(username, exp));
    let token = token_of(key, username, exp);
    let i = user.len() as int;
    let j = digits.len() as int;
    reveal_strlit(".");
    lemma_base64_alphabet(encode_utf8(username));
    lemma_decimal_digits(exp);
    assert(token[i] == '.');
    assert forall|k: int| 0 <= k < i implies token[k] != '.' by {
        assert(token[k] == user[k]);
        assert(is_url_safe(user[k]));
    }
    lemma_find_is(token, '.', i);
    let rest = token.skip(i + 1);
    assert(rest =~= digits + "."@ + sig);
    assert(rest[j] == '.');
    assert forall|k: int| 0 <= k < j implies rest[k] != '.' by {
        assert(rest[k] == digits[k]);
        assert(is_digit(digits[k]));
    }
    lemma_find_is(rest, '.', j);
    assert(token.take(i) =~= user);
    assert(rest.take(j) =~= digits);
    assert(rest.skip(j + 1) =~= sig);
}

proof fn lemma_one_part(s: Seq<char>)
    requires
        !s.contains('.'),
    ensures
        split(s, '.') == seq![s],
{
    assert forall|k: int| 0 <= k < s.len() implies s[k] != '.' by {
        assert(s.contains(s[k]));
    }
    crate::text::lemma_find(s, '.');
    assert(find(s, '.') == s.len());
    assert(split(s, '.') =~= seq![s]);
}

/// Split at its dots, a token has three parts: the name in base64, the second
/// at which it ends in decimal, and its signature in lower-case hexadecimal.
pub proof fn law_token_has_three_parts(key: Seq<u8>, username: Seq<char>, exp: nat)
    ensures
        split(token_of(key, username, exp), '.') == seq![
            base64_text(encode_utf8(username)),
            decimal(exp),
            signature(key, token_payload(username, exp)),
        ],
        forall|i: int|
            0 <= i < signature(key, token_payload(username, exp)).len() ==> is_hex_digit(
                #[trigger] signature(key, token_payload(username, exp))[i],
            ),
{
    let token = token_of(key, username, exp);
    let sig = signature(key, token_payload(username, exp));
    lemma_token_parts(key, username, exp);
    lemma_hex_digits(hmac_sha256(key, encode_utf8(token_payload(username, exp))));
    assert(!sig.contains('.'));
    lemma_one_part(sig);
    let rest = token.skip(find(token, '.') + 1);
    assert(split(rest, '.') =~= seq![decimal(exp), sig]);
    assert(split(token, '.') =~= seq![base64_text(encode_utf8(username)), decimal(exp), sig]);
}

/// A token that was issued stands for its user until it runs out, and for
/// nobody from then on.
pub proof fn law_issued_token_stands_for_user(
    key: Seq<u8>,
    username: Seq<char>,
    exp: u64,
    now: u64,
)
    requires
        username.len() > 0,
    ensures
        token_user(key, token_of(key, username, exp as nat), now as nat) == if now < exp {
            Some(username)
        } else {
            None
        },
{
    broadcast use {encode_utf8_valid_utf8, encode_utf8_decode_utf8};

    lemma_token_parts(key, username, exp as nat);
    lemma_decimal_reads_back(exp as nat);
    lemma_base64_reads_back(encode_utf8(username));
}

/// A token stands for a user only where its last part is the signature of the
/// rest.
pub proof fn law_only_signed_tokens_count(key: Seq<u8>, token: Seq<char>, now: u64)
    requires
        token_user(key, token, now as nat) is Some,
    ensures
        exists|payload: Seq<char>| token == payload + "."@ + #[trigger] signature(key, payload),
{
    let (user, exp, sig) = token_parts(token)->Some_0;
    let payload = user + "."@ + exp;
    reveal_strlit(".");
    crate::text::lemma_find(token, '.');
    let rest = token.skip(find(token, '.') + 1);
    crate::text::lemma_find(rest, '.');
    assert(token =~= payload + "."@ + signature(key, payload));
}

/// A token that has run out never counts again.
pub proof fn law_expired_tokens_stay_expired(key: Seq<u8>, token: Seq<char>, now: u64, later: u64)
    requires
        now <= later,
        token_user(key, token, later as nat) is Some,
    ensures
        token_user(key, token, now as nat) == token_user(key, token, later as nat),
{
}

// ---- failed logins ----

/// The limit on failed logins: the fifth failure locks the panel for three
/// minutes.
pub struct LoginGuard {
    start: Instant,
    fails: u32,
    locked_until: Option<u128>,
}

/// What a `LoginGuard` holds; times are nanoseconds since it was made.
pub struct GuardView {
    pub started: Instant,
    pub fails: u32,
    pub locked_until: Option<u128>,
}

impl View for LoginGuard {
    type V = GuardView;

    closed spec fn view(&self) -> GuardView {
        GuardView { started: self.start, fails: self.fails, locked_until: self.locked_until }
    }
}

/// The time of a guard's clock at an instant.
pub open spec fn guard_time(started: Instant, at: Instant) -> u128 {
    nanos_between(started, at) as u128
}

impl GuardView {
    /// No failures and no lock, since the given instant.
    pub open spec fn fresh(started: Instant) -> GuardView {
        GuardView { started, fails: 0, locked_until: None }
    }

    /// Fewer failures than lock the panel, and a lock that ends in time.
    pub open spec fn wf(self) -> bool {
        &&& self.fails < MAX_LOGIN_FAILS
        &&& self.locked_until matches Some(t) ==> t <= LATEST_NANOS
    }

    /// The seconds that a lock lasts yet: the whole ones, and one at least.
    pub open spec fn remaining(self, now: u128) -> u64 {
        match self.locked_until {
            Some(t) => if t > now {
                let secs = (t - now) / (SECOND_NANOS as int);
                if secs > 0 {
                    secs as u64
                } else {
                    1
                }
            } else {
                0
            },
            None => 0,
        }
    }

    /// A lock that has ended is forgotten, with the failures before it.
    pub open spec fn renewed(self, now: u128) -> GuardView {
        match self.locked_until {
            Some(t) => if t <= now {
                GuardView::fresh(self.started)
            } else {
                self
            },
            None => self,
        }
    }

    /// A login has failed.
    pub open spec fn failed(self, now: u128) -> GuardView {
        let g = self.renewed(now);
        if g.fails + 1 >= MAX_LOGIN_FAILS {
            GuardView { fails: 0, locked_until: Some(lock_end(now)), ..g }
        } else {
            GuardView { fails: (g.fails + 1) as u32, ..g }
        }
    }

    /// How many more logins may fail after one that fails now.
    pub open spec fn chances(self, now: u128) -> u32 {
        let g = self.renewed(now);
        if g.fails + 1 >= MAX_LOGIN_FAILS {
            0
        } else {
            (MAX_LOGIN_FAILS - g.fails - 1) as u32
        }
    }
}

/// When a lock ends that begins now.
pub open spec fn lock_end(now: u128) -> u128 {
    if now + LOGIN_LOCK_NANOS > LATEST_NANOS {
        LATEST_NANOS
    } else {
        (now + LOGIN_LOCK_NANOS) as u128
    }
}

impl LoginGuard {
    /// The guard counts fewer failures than lock the panel.
    pub closed spec fn wf(&self) -> bool {
        self@.wf()
    }

    /// When the guard was made.
    pub open spec fn started(&self) -> Instant {
        self@.started
    }

    /// No failures and no lock.
    pub fn new() -> (r: LoginGuard)
        ensures
            r.wf(),
            r@ == GuardView::fresh(r.started()),
    {
        LoginGuard { start: Instant::now(), fails: 0, locked_until: None }
    }

    /// How long the guard has been there at an instant, in nanoseconds.
    pub fn now_at(&self, at: Instant) -> (r: u128)
        ensures
            r == nanos_between(self.started(), at),
            r == guard_time(self.started(), at),
            r <= LATEST_NANOS,
    {
        at.saturating_duration_since(self.start).as_nanos()
    }

    /// How long the guard has been there, in nanoseconds.
    pub fn now(&self) -> (r: u128)
        ensures
            exists|at: Instant| #[trigger]
                guard_time(self.started(), at) == r && nanos_between(self.started(), at) == r,
            r <= LATEST_NANOS,
    {
        self.now_at(Instant::now())
    }

    /// The seconds that a lock lasts yet at the given time, and zero without a
    /// lock.
    pub fn lock_remaining_at(&self, now: u128) -> (r: u64)
        requires
            self.wf(),
        ensures
            r == self@.remaining(now),
            r > 0 <==> (self@.locked_until matches Some(t) && t > now),
    {
        match self.locked_until {
            Some(t) => if t > now {
                let secs: u128 = (t - now) / SECOND_NANOS;
                if secs > 0 {
                    secs as u64
                } else {
                    1
                }
            } else {
                0
            },
            None => 0,
        }
    }

    /// The seconds that a lock lasts yet, and zero without a lock.
    pub fn lock_remaining(&self) -> (r: u64)
        requires
            self.wf(),
        ensures
            exists|at: Instant|
                r == self@.remaining(#[trigger] guard_time(self.started(), at)) && nanos_between(
                    self.started(),
                    at,
                ) <= LATEST_NANOS,
    {
        let now = self.now();
        self.lock_remaining_at(now)
    }

    /// Whether the panel is locked.
    pub fn is_locked(&self) -> (r: bool)
        requires
            self.wf(),
        ensures
            exists|at: Instant|
                r == (self@.remaining(#[trigger] guard_time(self.started(), at)) > 0)
                    && nanos_between(self.started(), at) <= LATEST_NANOS,
    {
        self.lock_remaining() > 0
    }

    /// Counts a login that failed at the given time; says how many more may
    /// fail, where none locks the panel.
    pub fn record_fail_at(&mut self, now: u128) -> (r: u32)
        requires
            old(self).wf(),
        ensures
            final(self).wf(),
            final(self)@ == old(self)@.failed(now),
            final(self).started() == old(self).started(),
            r == old(self)@.chances(now),
    {
        match self.locked_until {
            Some(t) => {
                if t <= now {
                    self.fails = 0;
                    self.locked_until = None;
                }
            },
            None => {},
        }
        self.fails = self.fails + 1;
        if self.fails >= MAX_LOGIN_FAILS {
            let end: u128 = if now > LATEST_NANOS - LOGIN_LOCK_NANOS {
                LATEST_NANOS
            } else {
                now + LOGIN_LOCK_NANOS
            };
            self.locked_until = Some(end);
            self.fails = 0;
            return 0;
        }
        MAX_LOGIN_FAILS - self.fails
    }

    /// Counts a login that failed now; says how many more may fail, where none
    /// locks the panel.
    pub fn record_fail(&mut self) -> (r: u32)
        requires
            old(self).wf(),
        ensures
            final(self).wf(),
            final(self).started() == old(self).started(),
            exists|at: Instant|
                final(self)@ == old(self)@.failed(#[trigger] guard_time(old(self).started(), at))
                    && r == old(self)@.chances(guard_time(old(self).started(), at))
                    && nanos_between(old(self).started(), at) <= LATEST_NANOS,
    {
        let now = self.now();
        self.record_fail_at(now)
    }

    /// Forgets failures and lock.
    pub fn reset(&mut self)
        ensures
            final(self).wf(),
            final(self)@ == GuardView::fresh(old(self).started()),
            final(self).started() == old(self).started(),
    {
        self.fails = 0;
        self.locked_until = None;
    }
}

/// Logins that fail one after the other at the given times.
pub open spec fn all_failed(g: GuardView, times: Seq<u128>) -> GuardView
    decreases times.len(),
{
    if times.len() == 0 {
        g
    } else {
        all_failed(g, times.drop_last()).failed(times.last())
    }
}

/// Up to four failures lock nothing, and each leaves one chance less.
pub proof fn law_four_failures_do_not_lock(started: Instant, times: Seq<u128>, now: u128)
    requires
        times.len() < MAX_LOGIN_FAILS,
    ensures
        ({
            let g = all_failed(GuardView::fresh(started), times);
            &&& g == (GuardView { started, fails: times.len() as u32, locked_until: None })
            &&& g.remaining(now) == 0
            &&& g.chances(now) == MAX_LOGIN_FAILS - times.len() - 1
        }),
    decreases times.len(),
{
    if times.len() > 0 {
        law_four_failures_do_not_lock(started, times.drop_last(), now);
    }
}

/// The fifth failure in a row locks the panel for three minutes, to the
/// nanosecond.
pub proof fn law_fifth_failure_locks(started: Instant, times: Seq<u128>, now: u128)
    requires
        times.len() == MAX_LOGIN_FAILS,
        times.last() + LOGIN_LOCK_NANOS <= LATEST_NANOS,
        times.last() <= now,
    ensures
        all_failed(GuardView::fresh(started), times).remaining(now) > 0 <==> now < times.last()
            + LOGIN_LOCK_NANOS,
{
    law_four_failures_do_not_lock(started, times.drop_last(), now);
    let g = all_failed(GuardView::fresh(started), times);
    let t = (times.last() + LOGIN_LOCK_NANOS) as u128;
    assert(g.locked_until == Some(t));
}

/// A failure that leaves no chance locks the panel for three minutes of the
/// clock: that long after it the whole seconds that are left remain, one at
/// least, and none remain from then on.
pub proof fn law_lock_lasts_three_minutes(g: GuardView, failed: Instant, at: Instant)
    requires
        instant_nanos(g.started) <= instant_nanos(failed) <= instant_nanos(at),
        g.chances(guard_time(g.started, failed)) == 0,
        nanos_between(g.started, failed) + LOGIN_LOCK_NANOS <= LATEST_NANOS,
        nanos_between(g.started, at) <= LATEST_NANOS,
    ensures
        ({
            let left = LOGIN_LOCK_NANOS - nanos_between(failed, at);
            let secs = g.failed(guard_time(g.started, failed)).remaining(
                guard_time(g.started, at),
            );
            if left <= 0 {
                secs == 0
            } else if left < SECOND_NANOS {
                secs == 1
            } else {
                secs == left / (SECOND_NANOS as int) && 1 <= secs <= 180
            }
        }),
{
}

/// A failure that leaves a chance locks nothing: a panel that was not locked
/// is not.
pub proof fn law_chances_leave_unlocked(g: GuardView, now: u128, later: u128)
    requires
        g.wf(),
        g.remaining(now) == 0,
        g.chances(now) > 0,
    ensures
        g.failed(now).locked_until is None,
        g.failed(now).remaining(later) == 0,
        GuardView::fresh(g.started).remaining(later) == 0,
{
}

/// Once a lock has ended, failures are counted from the beginning.
pub proof fn law_lock_ends(g: GuardView, now: u128)
    requires
        g.locked_until matches Some(t) && t <= now,
    ensures
        g.remaining(now) == 0,
        g.failed(now) == (GuardView { fails: 1, ..GuardView::fresh(g.started) }),
{
}

} // verus!
