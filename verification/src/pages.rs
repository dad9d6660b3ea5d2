//! The pages of the panel.

use crate::config::{AppConfig, ConfigView, KeyView, PushKey};
use crate::text::{decimal, decimal_text, html_escape, html_escaped, replace_text, replaced};
use vstd::prelude::*;
use vstd::string::*;

verus! {

broadcast use vstd::string::group_string_axioms;

/// A page up to its title.
pub const SHELL_HEAD: &'static str = r#"<!DOCTYPE html>
<html lang="zh">
<head>
<meta charset="utf-8">
<meta name="viewport" content="width=device-width, initial-scale=1">
<title>"#;

/// A page from its title to its body.
pub const SHELL_MIDDLE: &'static str = r#" - PushMe Server</title>
<style>
:root { --bg:#0f1420; --card:#171e2e; --border:#2a3348; --text:#dce3f0; --dim:#8b95a8; --accent:#00e5ff; --danger:#ff5470; }
* { box-sizing:border-box; margin:0; padding:0; }
body { font-family:-apple-system,"Segoe UI","Microsoft YaHei",sans-serif; background:var(--bg); color:var(--text); line-height:1.6; }
.wrap { max-width:960px; margin:0 auto; padding:32px 20px; }
h1 { font-size:22px; margin-bottom:8px; }
h1 .logo { color:var(--accent); }
h2 { font-size:16px; margin:24px 0 12px; color:var(--accent); }
.sub { color:var(--dim); font-size:13px; margin-bottom:24px; }
.card { background:var(--card); border:1px solid var(--border); border-radius:10px; padding:18px; margin-bottom:16px; }
input, select { background:#0d1220; border:1px solid var(--border); color:var(--text); padding:10px 12px; border-radius:6px; font-size:14px; width:100%; }
textarea { background:#0d1220; border:1px solid var(--border); color:var(--text); padding:10px 12px; border-radius:6px; font-size:14px; width:100%; resize:vertical; min-height:72px; }
input:focus, select:focus { outline:none; border-color:var(--accent); }
label { display:block; font-size:13px; color:var(--dim); margin:10px 0 4px; }
.btn { background:var(--accent); color:#04222a; border:none; padding:9px 18px; border-radius:6px; font-size:14px; font-weight:600; cursor:pointer; margin-top:12px; }
.btn:hover { filter:brightness(1.15); }
.btn.danger { background:var(--danger); color:#fff; padding:4px 10px; font-size:12px; margin:0; }
table { width:100%; border-collapse:collapse; font-size:13px; }
th, td { padding:8px 10px; border-bottom:1px solid var(--border); text-align:left; }
th { color:var(--dim); font-weight:500; }
.mono { font-family:Consolas,monospace; word-break:break-all; }
.alert { background:#3a1620; border:1px solid var(--danger); color:#ffb3c0; padding:10px 14px; border-radius:6px; margin-bottom:16px; font-size:14px; }
.grid { display:grid; grid-template-columns:1fr 1fr 1fr; gap:12px; }
.stat { background:var(--card); border:1px solid var(--border); border-radius:10px; padding:14px; text-align:center; }
.stat .num { font-size:26px; color:var(--accent); font-weight:700; }
.stat .label { font-size:12px; color:var(--dim); }
.row { display:flex; gap:8px; align-items:center; }
.row input { flex:1; }
.tip { font-size:12px; color:var(--dim); margin-top:6px; }
</style>
</head>
<body><div class="wrap">"#;

/// A page after its body.
pub const SHELL_END: &'static str = r#"</div></body>
</html>"#;

/// The form that enters the administrator.
pub const INSTALL_HTML: &'static str = r#"
<h1><span class="logo">PushMe</span> Server</h1>
<div class="sub">首次安装：设置管理员账号</div>
<div class="card" style="max-width:420px">
<form method="post" action="/install">
<label>管理员账号</label>
<input name="user" autocomplete="username" required>
<label>密码</label>
<input name="password" type="password" autocomplete="new-password" required>
<button class="btn" type="submit">完成安装</button>
</form>
</div>
"#;

/// The form to log in.
pub const LOGIN_HTML: &'static str = r#"
<h1><span class="logo">PushMe</span> Server</h1>
<div class="sub">管理面板登录</div>
<div class="card" style="max-width:420px">
<form method="post" action="/login">
<label>账号</label>
<input name="user" autocomplete="username" required>
<label>密码</label>
<input name="password" type="password" autocomplete="current-password" required>
<button class="btn" type="submit">登录</button>
</form>
</div>
"#;

/// The panel.
pub const DASHBOARD_HTML: &'static str = r#"
<h1><span class="logo">PushMe</span> Server <span style="font-size:13px;color:var(--dim)">({{USERNAME}})</span></h1>
<div class="sub"><a href="/logout" style="color:var(--dim)">退出登录</a></div>

<div class="grid">
<div class="stat"><div class="num" id="msg-count">0</div><div class="label">推送消息总数</div></div>
<div class="stat"><div class="num" id="conn-count">0</div><div class="label">当前 MQTT 连接</div></div>
<div class="stat"><div class="num" id="uptime">0s</div><div class="label">运行时长</div></div>
</div>

<h2>推送 Key</h2>
<div class="card">
<table id="keys-table">
<thead><tr><th>push_key</th><th>temp_key</th><th>备注</th><th>操作</th></tr></thead>
<tbody id="keys-body">{{ROWS}}</tbody>
</table>
<div class="row" style="margin-top:14px">
<input id="new-note" placeholder="备注（可选）">
<button class="btn" style="margin:0" onclick="addKey()">添加新 Key</button>
</div>
<span id="key-result" class="tip"></span>
<div class="tip">推送接口：GET/POST http://服务器:端口/?push_key=KEY&amp;title=标题&amp;content=内容 （也支持 temp_key）</div>
</div>

<h2>消息测试</h2>
<div class="card">
<div class="row"><input id="test-key" placeholder="push_key"></div>
<label>标题</label><input id="test-title" placeholder="测试标题">
<label>内容</label><input id="test-content" placeholder="测试内容">
<button class="btn" onclick="testPush()">发送测试消息</button>
<span id="test-result" class="tip"></span>
</div>



<h2>设置</h2>
<div class="card">
<label>修改密码</label>
<div class="row"><input id="old-pw" type="password" placeholder="原密码"></div>
<div class="row" style="margin-top:8px"><input id="new-pw" type="password" placeholder="新密码（至少6位）"></div>
<button class="btn" onclick="changePassword()">更新密码</button><span id="pw-result" class="tip"></span>

<label style="margin-top:20px">消息服务 TLS 模式</label>
<select id="tls-mode">
<option value="none">none（明文）</option>
<option value="self">self（自签名证书）</option>
<option value="public">public（正式证书，放入 config/certs/cert.crt 与 private.key）</option>
</select>
<button class="btn" onclick="saveTls()">保存 TLS 设置</button><span id="tls-result" class="tip"></span>

<label style="margin-top:20px">生成自签名证书（每行一个域名或 IP）</label>
<div><textarea id="cert-domains" rows="3" placeholder="push.example.com&#10;1.2.3.4&#10;（自动包含 127.0.0.1 与 ::1）"></textarea></div>
<button class="btn" onclick="genCert()">生成证书</button><span id="cert-result" class="tip"></span>

<label style="margin-top:20px">端口设置（重启后生效）</label>
<div class="row" style="margin-top:8px"><input id="server-port" type="number" min="1" max="65535" placeholder="消息服务端口（默认 3100）"></div>
<div class="row" style="margin-top:8px"><input id="panel-port" type="number" min="1" max="65535" placeholder="面板端口（默认 3010）"></div>
<button class="btn" onclick="savePorts()">保存端口</button><span id="ports-result" class="tip"></span>

<label style="margin-top:20px">消息服务状态（重启后生效）</label>
<div class="row"><span id="status-label" class="tip" style="flex:1"></span></div>
<div class="row" style="margin-top:8px"><button class="btn" style="margin:0;flex:1" onclick="setStatus('start')">启动消息服务</button><button class="btn danger" style="margin:0;flex:1" onclick="setStatus('stop')">停止消息服务</button></div>

<label style="margin-top:20px">面板网络（重启后生效）</label>
<div class="row"><input id="panel-bind" placeholder="面板绑定地址（默认 127.0.0.1）"></div>
<label style="margin-top:8px"><input type="checkbox" id="public-panel" style="width:auto;margin-right:6px">允许公网端口访问管理路由（不推荐）</label>
<button class="btn" onclick="saveNetwork()">保存网络设置</button><span id="net-result" class="tip"></span>

<label style="margin-top:20px">离线消息补发</label>
<label style="margin-top:8px"><input type="checkbox" id="offline-enabled" {{OFFLINE_MESSAGES}} style="width:auto;margin-right:6px">开启离线消息（发布时无在线订阅者则缓存，客户端重连后自动补发）</label>
<div class="row" style="margin-top:8px"><input id="offline-limit" type="number" min="1" max="1000" placeholder="缓存条数上限（默认 50）"></div>
<div class="tip">适用场景：交易消息等离线期间的消息，重连后不丢失。上限按推送 Key 分别缓存，超限淘汰最旧消息。</div>
<button class="btn" onclick="saveOffline()">保存离线设置</button><span id="offline-result" class="tip"></span>
</div>

<script>
async function post(url, data) {
  const body = new URLSearchParams(data);
  const r = await fetch(url, { method:'POST', body });
  return r.json();
}
function tip(id, msg, ok) {
  const el = document.getElementById(id);
  el.textContent = msg;
  el.style.color = ok ? '#7ee787' : '#ff9fb0';
}
async function refreshKeys() {
  const r = await fetch('/api/keys');
  if (!r.ok) return;
  const d = await r.json();
  const body = document.getElementById('keys-body');
  body.innerHTML = d.keys.map(k => '<tr><td class="mono">' + k.key + '</td><td class="mono">' + k.temp_key + '</td><td>' + (k.note || '') + '</td><td><button class="btn danger" onclick="delKey(\'' + k.key + '\')">删除</button></td></tr>').join('');
}
async function addKey() {
  const note = document.getElementById('new-note').value;
  const r = await post('/api/keys/add', { note });
  if (r.ok) { tip('key-result', '新 Key：' + r.key, true); document.getElementById('new-note').value = ''; }
  else tip('key-result', r.message || '失败', false);
  refreshKeys();
}
async function delKey(key) {
  if (!confirm('确认删除该 Key？')) return;
  await post('/api/keys/delete', { key });
  refreshKeys();
}
async function testPush() {
  const key = document.getElementById('test-key').value;
  const title = document.getElementById('test-title').value;
  const content = document.getElementById('test-content').value;
  const r = await post('/api/test', { key, title, content });
  tip('test-result', r.message, r.ok);
}
async function changePassword() {
  const old_password = document.getElementById('old-pw').value;
  const new_password = document.getElementById('new-pw').value;
  const r = await post('/api/setting/password', { old_password, new_password });
  tip('pw-result', r.message, r.ok);
}
async function saveTls() {
  const tls = document.getElementById('tls-mode').value;
  const r = await post('/api/setting/tls', { tls });
  tip('tls-result', r.message, r.ok);
}
async function genCert() {
  const domains = document.getElementById('cert-domains').value || 'localhost';
  const r = await post('/api/cert/generate', { domains });
  tip('cert-result', r.message, r.ok);
}
async function saveNetwork() {
  const panel_bind = document.getElementById('panel-bind').value;
  const public_panel = document.getElementById('public-panel').checked ? 'true' : 'false';
  const r = await post('/api/setting/network', { panel_bind, public_panel });
  tip('net-result', r.message, r.ok);
}
async function saveOffline() {
  const enabled = document.getElementById('offline-enabled').checked ? 'true' : 'false';
  const limit = document.getElementById('offline-limit').value || '50';
  const r = await post('/api/setting/offline', { enabled, limit });
  tip('offline-result', r.message, r.ok);
}
async function savePorts() {
  const server_port = document.getElementById('server-port').value;
  const panel_port = document.getElementById('panel-port').value;
  const r = await post('/api/setting/ports', { server_port, panel_port });
  tip('ports-result', r.message, r.ok);
}
async function setStatus(status) {
  const r = await post('/api/setting/status', { status });
  tip('ports-result', r.message, r.ok);
}
async function clearLogs() {
  const r = await post('/api/log/clear', {});
  tip('logs-body', r.message, r.ok);
  document.getElementById('logs-body').innerHTML = '';
}
function appendLog(l) {
  const tbody = document.getElementById('logs-body');
  const tr = document.createElement('tr');
  tr.innerHTML = '<td class="mono">' + (l.time || '') + '</td><td class="mono">' + (l.key || '') + '</td><td>' + (l.title || '') + '</td><td>' + (l.result || '') + '</td>';
  tbody.insertBefore(tr, tbody.firstChild);
  while (tbody.children.length > 100) tbody.removeChild(tbody.lastChild);
}
async function loadLogs() {
  const r = await fetch('/api/log/history?count=100');
  if (!r.ok) return;
  const d = await r.json();
  (d.logs || []).forEach(appendLog);
}
function openLogStream() {
  const es = new EventSource('/api/log/stream');
  es.onmessage = e => { try { appendLog(JSON.parse(e.data)); } catch (err) {} };
  es.onerror = () => { es.close(); setTimeout(openLogStream, 5000); };
}
function fmtUptime(s) {
  if (s < 60) return s + 's';
  if (s < 3600) return Math.floor(s/60) + 'm' + (s%60) + 's';
  return Math.floor(s/3600) + 'h' + Math.floor((s%3600)/60) + 'm';
}
async function refreshStatus() {
  const r = await fetch('/api/status');
  if (!r.ok) return;
  const d = await r.json();
  document.getElementById('msg-count').textContent = d.status.message_count;
  document.getElementById('conn-count').textContent = d.status.connections;
  document.getElementById('uptime').textContent = fmtUptime(d.status.uptime);
  if (!document.getElementById('panel-bind').value) document.getElementById('panel-bind').value = d.status.panel_bind;
  document.getElementById('tls-mode').value = d.status.tls;
  if (!document.getElementById('server-port').value) document.getElementById('server-port').value = d.status.server_port;
  if (!document.getElementById('panel-port').value) document.getElementById('panel-port').value = d.status.panel_port;
  if (!document.getElementById('offline-limit').value) document.getElementById('offline-limit').value = d.status.offline_limit || 50;
  const st = d.status.status === 'stop' ? '已停止' : '运行中';
  document.getElementById('status-label').textContent = '消息服务：' + st + '（端口 ' + d.status.server_port + '）';
}
refreshKeys();
refreshStatus();
loadLogs();
openLogStream();
setInterval(refreshStatus, 5000);
</script>
"#;

/// A page with the given title and body.
pub open spec fn page_of(title: Seq<char>, body: Seq<char>) -> Seq<char> {
    SHELL_HEAD@ + title + SHELL_MIDDLE@ + body + SHELL_END@
}

/// A page with the given title and body.
pub fn page_shell(title: &str, body: &str) -> (r: String)
    ensures
        r@ == page_of(title@, body@),
{
    let mut out = SHELL_HEAD.to_string();
    out.append(title);
    out.append(SHELL_MIDDLE);
    out.append(body);
    out.append(SHELL_END);
    out
}

/// A form below a message.
pub open spec fn alert_of(message: Seq<char>, form: Seq<char>) -> Seq<char> {
    "<div class=\"alert\">"@ + html_escaped(message) + "</div>"@ + form
}

fn alert(message: &str, form: &str) -> (r: String)
    ensures
        r@ == alert_of(message@, form@),
{
    let mut out = "<div class=\"alert\">".to_string();
    let text = html_escape(message);
    out.append(text.as_str());
    out.append("</div>");
    out.append(form);
    out
}

/// The page that enters the administrator.
pub open spec fn install_page_of() -> Seq<char> {
    page_of("系统安装"@, INSTALL_HTML@)
}

/// The page to log in.
pub open spec fn login_page_of() -> Seq<char> {
    page_of("登录"@, LOGIN_HTML@)
}

/// The page that enters the administrator, with what went wrong.
pub open spec fn install_error_of(message: Seq<char>) -> Seq<char> {
    page_of("系统安装"@, alert_of(message, INSTALL_HTML@))
}

/// The page to log in, with what went wrong.
pub open spec fn login_error_of(message: Seq<char>) -> Seq<char> {
    page_of("登录"@, alert_of(message, LOGIN_HTML@))
}

/// The page that enters the administrator.
pub fn install_form() -> (r: String)
    ensures
        r@ == install_page_of(),
{
    page_shell("系统安装", INSTALL_HTML)
}

/// The page to log in.
pub fn login_form() -> (r: String)
    ensures
        r@ == login_page_of(),
{
    page_shell("登录", LOGIN_HTML)
}

/// The page that enters the administrator, with what went wrong.
pub fn install_error(message: &str) -> (r: String)
    ensures
        r@ == install_error_of(message@),
{
    let body = alert(message, INSTALL_HTML);
    page_shell("系统安装", body.as_str())
}

/// The page to log in, with what went wrong.
pub fn login_error(message: &str) -> (r: String)
    ensures
        r@ == login_error_of(message@),
{
    let body = alert(message, LOGIN_HTML);
    page_shell("登录", body.as_str())
}

/// A push key as a row of the table.
pub open spec fn row_of(k: KeyView) -> Seq<char> {
    "<tr><td class=\"mono\">"@ + html_escaped(k.key) + "</td><td class=\"mono\">"@ + html_escaped(
        k.temp_key,
    ) + "</td><td>"@ + html_escaped(k.note)
        + "</td><td><button class=\"btn danger\" onclick=\"delKey('"@ + html_escaped(k.key)
        + "')\">删除</button></td></tr>"@
}

/// Push keys as rows of the table.
pub open spec fn rows_of(keys: Seq<KeyView>) -> Seq<char>
    decreases keys.len(),
{
    if keys.len() == 0 {
        Seq::empty()
    } else {
        rows_of(keys.drop_last()) + row_of(keys.last())
    }
}

/// A box that is ticked, or not.
pub open spec fn ticked(on: bool) -> Seq<char> {
    if on {
        "checked"@
    } else {
        ""@
    }
}

/// The body of the panel: what stands between double braces is filled in, one
/// after the other.
pub open spec fn dashboard_of(cfg: ConfigView, username: Seq<char>) -> Seq<char> {
    let s = replaced(DASHBOARD_HTML@, "{{USERNAME}}"@, html_escaped(username));
    let s = replaced(s, "{{ROWS}}"@, rows_of(cfg.keys()));
    let s = replaced(s, "{{TLS}}"@, html_escaped(cfg.tls));
    let s = replaced(s, "{{PANEL_BIND}}"@, html_escaped(cfg.panel_bind));
    let s = replaced(s, "{{PUBLIC_PANEL}}"@, ticked(cfg.public_panel));
    let s = replaced(s, "{{OFFLINE_MESSAGES}}"@, ticked(cfg.offline_messages));
    replaced(s, "{{OFFLINE_LIMIT}}"@, decimal(cfg.offline_limit as nat))
}

/// The first page: to enter the administrator where there is none, to log in
/// where nobody is, and the panel otherwise.
pub open spec fn index_page_of(cfg: ConfigView, user: Option<Seq<char>>) -> Seq<char> {
    if !cfg.installed() {
        install_page_of()
    } else {
        match user {
            Some(name) => page_of("管理台"@, dashboard_of(cfg, name)),
            None => login_page_of(),
        }
    }
}

fn push_row(out: &mut String, k: &PushKey)
    ensures
        final(out)@ == old(out)@ + row_of(k@),
{
    let key = html_escape(k.key.as_str());
    let temp_key = html_escape(k.temp_key.as_str());
    let note = html_escape(k.note.as_str());
    out.append("<tr><td class=\"mono\">");
    out.append(key.as_str());
    out.append("</td><td class=\"mono\">");
    out.append(temp_key.as_str());
    out.append("</td><td>");
    out.append(note.as_str());
    out.append("</td><td><button class=\"btn danger\" onclick=\"delKey('");
    out.append(key.as_str());
    out.append("')\">删除</button></td></tr>");
    assert(out@ =~= old(out)@ + row_of(k@));
}

fn rows(keys: &Vec<PushKey>) -> (r: String)
    ensures
        r@ == rows_of(crate::config::key_views(keys@)),
{
    let ghost all = crate::config::key_views(keys@);
    let mut out = String::new();
    let mut i: usize = 0;
    assert(all.take(0) =~= Seq::<KeyView>::empty());
    while i < keys.len()
        invariant
            all == crate::config::key_views(keys@),
            i <= keys@.len(),
            out@ == rows_of(all.take(i as int)),
        decreases keys@.len() - i,
    {
        assert(all.take(i + 1).drop_last() =~= all.take(i as int));
        push_row(&mut out, &keys[i]);
        i = i + 1;
    }
    assert(all.take(i as int) =~= all);
    out
}

fn tick(on: bool) -> (r: &'static str)
    ensures
        r@ == ticked(on),
{
    if on {
        "checked"
    } else {
        ""
    }
}

fn fill(s: &str, mark: &str, value: &str) -> (r: String)
    requires
        mark@.len() > 0,
    ensures
        r@ == replaced(s@, mark@, value@),
{
    replace_text(s, mark, value)
}

fn dashboard(cfg: &AppConfig, username: &str) -> (r: String)
    ensures
        r@ == dashboard_of(cfg@, username@),
{
    proof {
        reveal_strlit("{{USERNAME}}");
        reveal_strlit("{{ROWS}}");
        reveal_strlit("{{TLS}}");
        reveal_strlit("{{PANEL_BIND}}");
        reveal_strlit("{{PUBLIC_PANEL}}");
        reveal_strlit("{{OFFLINE_MESSAGES}}");
        reveal_strlit("{{OFFLINE_LIMIT}}");
    }
    let keys = cfg.push_keys();
    let rows = rows(&keys);
    let limit = decimal_text(cfg.offline_limit as u64);
    let s = fill(DASHBOARD_HTML, "{{USERNAME}}", html_escape(username).as_str());
    let s = fill(s.as_str(), "{{ROWS}}", rows.as_str());
    let s = fill(s.as_str(), "{{TLS}}", html_escape(cfg.tls.as_str()).as_str());
    let s = fill(s.as_str(), "{{PANEL_BIND}}", html_escape(cfg.panel_bind.as_str()).as_str());
    let s = fill(s.as_str(), "{{PUBLIC_PANEL}}", tick(cfg.public_panel));
    let s = fill(s.as_str(), "{{OFFLINE_MESSAGES}}", tick(cfg.offline_messages));
    fill(s.as_str(), "{{OFFLINE_LIMIT}}", limit.as_str())
}

/// The first page.
pub fn render_index(cfg: &AppConfig, user: &Option<String>) -> (r: String)
    ensures
        r@ == index_page_of(
            cfg@,
            match *user {
                Some(name) => Some(name@),
                None => None,
            },
        ),
{
    if !cfg.installed() {
        return install_form();
    }
    match user {
        Some(name) => {
            let body = dashboard(cfg, name.as_str());
            page_shell("管理台", body.as_str())
        },
        None => login_form(),
    }
}

} // verus!
