//! The pages of the panel as they are asked for: the first one, the one that
//! enters the administrator, and the one to log in.

use crate::auth::{
    guard_time, install, login_ok, token_of, verify_login, with_admin, GuardView, LoginGuard,
    Sessions, LATEST_NANOS, SESSION_TTL_SECS,
};
use crate::clock::{nanos_between, unix_seconds, unix_seconds_of};
use crate::config::{AppConfig, ConfigView};
use crate::crypto::{bcrypt_matches, is_hash_text, is_randomness_reason};
use crate::json::JsonTree;
use crate::pages::{
    index_page_of, install_error, install_error_of, install_form, install_page_of, login_error,
    login_error_of, login_form, login_page_of, render_index,
};
use crate::panel::{
    failure, failure_of, get, given, session_cookie, session_cookie_of, Handled,
};
use crate::reply::{html_reply, html_reply_of, redirect, redirect_of, Reply, ReplyView};
use crate::settings::at_most_upgraded;
use crate::text::{decimal, decimal_text, string_view, trim_text, trimmed};
use crate::third::Params;
use std::time::{Instant, SystemTime};
use vstd::prelude::*;
use vstd::string::*;

verus! {

broadcast use vstd::string::group_string_axioms;

/// Answers with the first page.
pub fn index(cfg: &AppConfig, user: &Option<String>) -> (r: Reply)
    ensures
        r@ == html_reply_of(index_page_of(cfg@, string_view(*user))),
{
    let page = render_index(cfg, user);
    html_reply(page.as_str())
}

// ---- the administrator ----

/// Answers with the page that enters the administrator, where there is none.
pub fn install_page(cfg: &AppConfig) -> (r: Reply)
    ensures
        r@ == if cfg@.installed() {
            redirect_of("/"@, None)
        } else {
            html_reply_of(install_page_of())
        },
{
    if cfg.installed() {
        return redirect("/", None);
    }
    let page = install_form();
    html_reply(page.as_str())
}

/// What becomes of a request to enter the administrator.
pub enum InstallStep {
    Answer(Reply),
    /// The configuration is to be saved; the administrator's name.
    Save(String),
}

/// Decides on a request to enter the administrator. It is done once: where
/// there is an administrator, it is refused.
pub fn plan_install(params: &Params, cfg: &mut AppConfig) -> (r: InstallStep)
    ensures
        ({
            let user = trimmed(given(params@, "user"@));
            let password = given(params@, "password"@);
            if old(cfg)@.installed() {
                r is Answer && r->Answer_0@ == failure_of(403, "系统已安装"@) && final(cfg)@ == old(
                    cfg,
                )@
            } else if user.len() == 0 || password.len() == 0 {
                r is Answer && r->Answer_0@ == html_reply_of(
                    install_error_of("账号或密码不能为空！"@),
                ) && final(cfg)@ == old(cfg)@
            } else {
                match r {
                    InstallStep::Save(name) => name@ == user && bcrypt_matches(
                        password,
                        final(cfg)@.pass_hash,
                    ) && is_hash_text(final(cfg)@.pass_hash) && final(cfg)@ == with_admin(
                        old(cfg)@,
                        user,
                        password,
                        final(cfg)@.pass_hash,
                    ),
                    InstallStep::Answer(reply) => final(cfg)@ == old(cfg)@ && exists|e: Seq<char>|
                        is_randomness_reason(e) && reply@ == html_reply_of(
                            #[trigger] install_error_of(e),
                        ),
                }
            }
        }),
{
    if cfg.installed() {
        return InstallStep::Answer(failure(403, "系统已安装"));
    }
    let user = trim_text(get(params, "user").as_str());
    let password = get(params, "password");
    if user.as_str().is_empty() || password.as_str().is_empty() {
        let page = install_error("账号或密码不能为空！");
        return InstallStep::Answer(html_reply(page.as_str()));
    }
    match install(cfg, user.as_str(), password.as_str()) {
        Ok(_) => InstallStep::Save(user),
        Err(e) => {
            let page = install_error(e.as_str());
            InstallStep::Answer(html_reply(page.as_str()))
        },
    }
}

/// The token of a session that begins at the given second, and none where it
/// would end after all time.
pub open spec fn token_at(key: Seq<u8>, user: Seq<char>, secs: u64) -> Seq<char> {
    if secs + SESSION_TTL_SECS <= u64::MAX {
        token_of(key, user, (secs + SESSION_TTL_SECS) as nat)
    } else {
        Seq::empty()
    }
}

/// The answer that begins a session.
pub open spec fn welcome_of(
    key: Seq<u8>,
    user: Seq<char>,
    secs: u64,
    panel_tls: Seq<char>,
) -> ReplyView {
    redirect_of("/"@, Some(session_cookie_of(token_at(key, user, secs), panel_tls)))
}

fn welcome_at(sessions: &Sessions, user: &str, cfg: &AppConfig, secs: u64) -> (r: Reply)
    ensures
        r@ == welcome_of(sessions.secret(), user@, secs, cfg@.panel_tls),
{
    let token = if secs <= u64::MAX - SESSION_TTL_SECS {
        sessions.issue_at(user, secs)
    } else {
        String::new()
    };
    assert(token@ =~= token_at(sessions.secret(), user@, secs));
    let cookie = session_cookie(token.as_str(), cfg);
    redirect("/", Some(cookie))
}

/// Answers a request to enter the administrator at the given second, once the
/// configuration has been saved or could not be.
pub fn finish_install_at(
    saved: &Result<(), String>,
    user: &str,
    sessions: &Sessions,
    cfg: &AppConfig,
    secs: u64,
) -> (r: Reply)
    ensures
        r@ == match *saved {
            Ok(_) => welcome_of(sessions.secret(), user@, secs, cfg@.panel_tls),
            Err(e) => html_reply_of(install_error_of(e@)),
        },
{
    match saved {
        Ok(_) => welcome_at(sessions, user, cfg, secs),
        Err(e) => {
            let page = install_error(e.as_str());
            html_reply(page.as_str())
        },
    }
}

/// Answers a request to enter the administrator, once the configuration has
/// been saved or could not be.
pub fn install_submit(
    saved: &Result<(), String>,
    user: &str,
    sessions: &Sessions,
    cfg: &AppConfig,
) -> (r: Reply)
    ensures
        match *saved {
            Ok(_) => exists|t: SystemTime|
                r@ == welcome_of(
                    sessions.secret(),
                    user@,
                    (#[trigger] unix_seconds_of(t)) as u64,
                    cfg@.panel_tls,
                ),
            Err(e) => r@ == html_reply_of(install_error_of(e@)),
        },
{
    finish_install_at(saved, user, sessions, cfg, unix_seconds())
}

// ---- logging in ----

/// Answers with the page to log in, once there is an administrator.
pub fn login_page(cfg: &AppConfig) -> (r: Reply)
    ensures
        r@ == if cfg@.installed() {
            html_reply_of(login_page_of())
        } else {
            redirect_of("/install"@, None)
        },
{
    if !cfg.installed() {
        return redirect("/install", None);
    }
    let page = login_form();
    html_reply(page.as_str())
}

/// What is said while the panel is locked for so many seconds.
pub open spec fn lock_tip_of(secs: u64) -> Seq<char> {
    "请"@ + (if secs >= 60 {
        decimal(secs as nat / 60) + "分"@
    } else {
        ""@
    }) + decimal(secs as nat % 60) + "秒后再试！"@
}

/// What is said of a failed login that leaves so many chances.
pub open spec fn fail_tip_of(left: u32) -> Seq<char> {
    if left == 0 {
        "账号或密码错误！请3分钟后再试"@
    } else if left <= 3 {
        "账号或密码错误！还剩"@ + decimal(left as nat) + "次机会"@
    } else {
        "账号或密码错误"@
    }
}

fn lock_tip(secs: u64) -> (r: String)
    ensures
        r@ == lock_tip_of(secs),
{
    let mut out = "请".to_string();
    if secs >= 60 {
        let minutes = decimal_text(secs / 60);
        out.append(minutes.as_str());
        out.append("分");
        assert(out@ =~= "请"@ + (decimal(secs as nat / 60) + "分"@));
    } else {
        out.append("");
    }
    let rest = decimal_text(secs % 60);
    out.append(rest.as_str());
    out.append("秒后再试！");
    out
}

fn fail_tip(left: u32) -> (r: String)
    ensures
        r@ == fail_tip_of(left),
{
    if left == 0 {
        "账号或密码错误！请3分钟后再试".to_string()
    } else if left <= 3 {
        let mut out = "账号或密码错误！还剩".to_string();
        let n = decimal_text(left as u64);
        out.append(n.as_str());
        out.append("次机会");
        out
    } else {
        "账号或密码错误".to_string()
    }
}

/// What a request to log in comes to.
pub struct LoginView {
    pub guard: GuardView,
    pub cfg: ConfigView,
    pub reply: ReplyView,
    pub save: bool,
}

/// Whether a request to log in may come to this, at a time of the guard's
/// clock and a second: while the panel is locked it is refused; the right
/// password begins a session; a wrong one counts.
pub open spec fn login_outcome(
    guard: GuardView,
    cfg: ConfigView,
    key: Seq<u8>,
    params: Map<Seq<char>, JsonTree>,
    now: u128,
    secs: u64,
    after: LoginView,
) -> bool {
    let user = trimmed(given(params, "user"@));
    let password = given(params, "password"@);
    if guard.remaining(now) > 0 {
        &&& after.guard == guard
        &&& after.cfg == cfg
        &&& !after.save
        &&& after.reply == html_reply_of(login_error_of(lock_tip_of(guard.remaining(now))))
    } else if login_ok(cfg, user, password) {
        &&& after.guard == GuardView::fresh(guard.started)
        &&& at_most_upgraded(cfg, after.cfg, password)
        &&& cfg.pass_hash.len() > 0 ==> after.cfg == cfg
        &&& after.save <==> after.cfg != cfg
        &&& after.reply == welcome_of(key, user, secs, cfg.panel_tls)
    } else {
        &&& after.guard == guard.failed(now)
        &&& after.cfg == cfg
        &&& !after.save
        &&& after.reply == html_reply_of(login_error_of(fail_tip_of(guard.chances(now))))
    }
}

/// Decides on a request to log in at the given times.
pub fn login_submit_at(
    guard: &mut LoginGuard,
    cfg: &mut AppConfig,
    sessions: &Sessions,
    params: &Params,
    now: u128,
    secs: u64,
) -> (r: Handled)
    requires
        old(guard).wf(),
    ensures
        final(guard).wf(),
        final(guard).started() == old(guard).started(),
        login_outcome(
            old(guard)@,
            old(cfg)@,
            sessions.secret(),
            params@,
            now,
            secs,
            (LoginView {
                guard: final(guard)@,
                cfg: final(cfg)@,
                reply: r.reply@,
                save: r.save,
            }),
        ),
{
    let user = trim_text(get(params, "user").as_str());
    let password = get(params, "password");
    let locked = guard.lock_remaining_at(now);
    if locked > 0 {
        let page = login_error(lock_tip(locked).as_str());
        return Handled { reply: html_reply(page.as_str()), save: false };
    }
    let hashed_before = !cfg.pass_hash.as_str().is_empty();
    match verify_login(cfg, user.as_str(), password.as_str()) {
        Ok(_) => {
            guard.reset();
            let upgraded = !hashed_before && !cfg.pass_hash.as_str().is_empty();
            Handled { reply: welcome_at(sessions, user.as_str(), cfg, secs), save: upgraded }
        },
        Err(_) => {
            let left = guard.record_fail_at(now);
            let page = login_error(fail_tip(left).as_str());
            Handled { reply: html_reply(page.as_str()), save: false }
        },
    }
}

/// Decides on a request to log in.
pub fn login_submit(
    guard: &mut LoginGuard,
    cfg: &mut AppConfig,
    sessions: &Sessions,
    params: &Params,
) -> (r: Handled)
    requires
        old(guard).wf(),
    ensures
        final(guard).wf(),
        final(guard).started() == old(guard).started(),
        exists|at: Instant, t: SystemTime|
            nanos_between(old(guard).started(), at) <= LATEST_NANOS && login_outcome(
                old(guard)@,
                old(cfg)@,
                sessions.secret(),
                params@,
                #[trigger] guard_time(old(guard).started(), at),
                (#[trigger] unix_seconds_of(t)) as u64,
                (LoginView {
                    guard: final(guard)@,
                    cfg: final(cfg)@,
                    reply: r.reply@,
                    save: r.save,
                }),
            ),
{
    let now = guard.now();
    let secs = unix_seconds();
    login_submit_at(guard, cfg, sessions, params, now, secs)
}

/// While the panel is locked, even the right password begins no session, and
/// nothing counts.
pub proof fn law_lock_refuses_everyone(
    guard: GuardView,
    cfg: ConfigView,
    key: Seq<u8>,
    params: Map<Seq<char>, JsonTree>,
    now: u128,
    secs: u64,
    after: LoginView,
)
    requires
        guard.remaining(now) > 0,
        login_outcome(guard, cfg, key, params, now, secs, after),
    ensures
        after.reply == html_reply_of(login_error_of(lock_tip_of(guard.remaining(now)))),
        after.guard == guard,
        after.cfg == cfg,
{
}

} // verus!
