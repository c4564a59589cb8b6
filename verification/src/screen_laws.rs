//! What stands on the screen, told by what is shown.

use vstd::prelude::*;

use crate::app::AppView;
use crate::app::Mode;
use crate::forms::AuthType;
use crate::forms::ConnectFocus;
use crate::forms::FormTunnelFocus;
use crate::key_laws::lemma_tunnel_on;
use crate::popups::tunnel_to;
use crate::popups::PopupView;
use crate::screen::running_count;
use crate::screen::tunnel_row;
use crate::screen::Backdrop;
use crate::screen::Body;
use crate::screen::BodyView;
use crate::session::ConnectionStatus;
use crate::styles::Color;
use crate::styles::Span;
use crate::styles::SpanView;
use crate::styles::Style;
use crate::styles::TableRow;
use crate::text::dec;
use crate::tunnel::TunnelInfoView;
use crate::units::amount;

verus! {

/// In a colour, bold or not, on nothing.
pub open spec fn coloured(color: Color, bold: bool) -> Style {
    Style { fg: Some(color), bg: None, bold }
}

/// The texts of the pieces of a line.
pub open spec fn texts_of(line: Seq<SpanView>) -> Seq<Seq<char>> {
    line.map_values(|s: SpanView| s.text)
}

// ---------- The tunnels ----------

/// The row of a tunnel shows whether it runs, its local port, where it leads, its connections,
/// what it receives and sends now, and what it has received and sent in all, in this order. Of
/// one that is stopped the connections and the present rates are left out.
pub proof fn lemma_row(t: TunnelInfoView)
    ensures
        ({
            let cells = tunnel_row(t).cells;
            &&& cells.len() == 8
            &&& cells[1].text == dec(t.local_port as nat)
            &&& cells[2].text == t.remote_host + ":"@ + dec(t.remote_port as nat)
            &&& cells[6].text == amount(t.rx_bytes, ""@)
            &&& cells[7].text == amount(t.tx_bytes, ""@)
            &&& t.enabled ==> {
                &&& cells[0].text == "● 运行中"@
                &&& cells[0].style == coloured(Color::Green, false)
                &&& cells[3].text == dec(t.connections as nat)
                &&& cells[4].text == amount(t.rx_rate, "/s"@)
                &&& cells[5].text == amount(t.tx_rate, "/s"@)
            }
            &&& !t.enabled ==> {
                &&& cells[0].text == "○ 已停用"@
                &&& cells[0].style == coloured(Color::DarkGray, false)
                &&& cells[3].text == "-"@
                &&& cells[4].text == "-"@
                &&& cells[5].text == "-"@
                &&& tunnel_row(t).style == coloured(Color::DarkGray, false)
            }
        }),
{
}

/// How many tunnels run is how many of them are shown to run.
pub proof fn lemma_running_count(tunnels: Seq<TunnelInfoView>, t: TunnelInfoView)
    ensures
        running_count(Seq::empty()) == 0,
        running_count(tunnels.push(t)) == running_count(tunnels) + if t.enabled {
            1int
        } else {
            0
        },
{
    assert(tunnels.push(t).drop_last() =~= tunnels);
}

/// Below the hosts stand the tunnels of the host that is shown, one row for each, in their
/// order, and the one that is selected is marked; above them the name of the host, how many
/// there are and how many run. Without tunnels, and without a host, it is said what can be
/// done.
pub proof fn lemma_tunnels_shown(app: AppView)
    requires
        !(app.mode is Log),
    ensures
        ({
            let there = app.active_host < app.hosts.len();
            let host = app.hosts[app.active_host as int];
            let n = host.tunnels.len();
            let body = app.backdrop().body;
            &&& !there ==> body is Welcome
            &&& there && n == 0 ==> body == BodyView::NoTunnels(
                " 隧道列表 ("@ + host.display_name + ") "@,
                "  ○ 当前主机暂无隧道 · 按 [a] 新建端口转发或发现远端服务"@,
            )
            &&& there && n > 0 ==> {
                &&& body is Tunnels
                &&& body->Tunnels_0 == " 隧道列表 ("@ + host.display_name + ") · 共 "@ + dec(n)
                    + " 条 ("@ + dec(running_count(host.tunnels)) + " 运行中) "@
                &&& body->Tunnels_1.len() == n
                &&& forall|i: int|
                    0 <= i < n ==> #[trigger] body->Tunnels_1[i] == tunnel_row(host.tunnels[i])
                &&& body->Tunnels_2 == app.selected_tunnel
            }
        }),
{
}

/// The log of a tunnel shows its messages from the one on that was scrolled to, in their order,
/// and says of which tunnel, whether it runs, and how many there are.
pub proof fn lemma_log_shown(app: AppView, port: u16, scroll: usize, k: int)
    requires
        app.mode == (Mode::Log { port, scroll }),
        app.active_host < app.hosts.len(),
        ({
            let tunnels = app.hosts[app.active_host as int].tunnels;
            &&& 0 <= k < tunnels.len()
            &&& tunnels[k].local_port == port
            &&& forall|j: int| 0 <= j < k ==> (#[trigger] tunnels[j]).local_port != port
        }),
    ensures
        ({
            let t = app.hosts[app.active_host as int].tunnels[k];
            let body = app.backdrop().body;
            &&& body is Log
            &&& t.enabled ==> body->Log_0 == " 隧道 "@ + dec(port as nat) + " 日志 (运行中) "@
            &&& !t.enabled ==> body->Log_0 == " 隧道 "@ + dec(port as nat) + " 日志 (已停用) "@
            &&& scroll < t.log.len() ==> body->Log_1.len() == t.log.len() - scroll
            &&& scroll >= t.log.len() ==> body->Log_1.len() == 0
            &&& forall|i: int|
                0 <= i < body->Log_1.len() ==> #[trigger] body->Log_1[i] == t.log[scroll + i]
            &&& app.backdrop().footer
                == " [↑/↓]滚动  [g/G]首/尾  [q/Esc]返回    共 "@ + dec(t.log.len()) + " 条"@
        }),
{
    lemma_tunnel_on(app.hosts[app.active_host as int].tunnels, port, k);
}

// ---------- The hosts ----------

/// The words for the state of a connection, and their colour.
pub open spec fn state_of(status: ConnectionStatus) -> (Seq<char>, Seq<char>, Color) {
    match status {
        ConnectionStatus::Connected => ("● "@, "● 已连接"@, Color::Green),
        ConnectionStatus::Reconnecting(_) => ("◐ "@, "◐ 重连中…"@, Color::Yellow),
        ConnectionStatus::Disconnected => ("○ "@, "○ 已断开"@, Color::Red),
    }
}

/// Each host has a tab, in order, with its number, the state of its connection, its name and
/// how many tunnels it has; behind them stands how to add one. The tab of the host that is
/// shown is the one that is marked.
pub proof fn lemma_tabs(app: AppView, i: int)
    requires
        0 <= i < app.hosts.len(),
    ensures
        ({
            let tabs = app.backdrop().tabs;
            let host = app.hosts[i];
            let (sign, _, color) = state_of(host.status);
            &&& tabs.len() == app.hosts.len() + 1
            &&& texts_of(tabs[i]) == seq![
                "["@ + dec((i + 1) as nat) + "] "@,
                sign,
                host.display_name,
                " ("@ + dec(host.tunnels.len()) + ")"@,
            ]
            &&& tabs[i][1].style == coloured(color, false)
            &&& texts_of(tabs.last()) == seq![" [+] 新建主机 (n) "@]
            &&& app.backdrop().active_tab == app.active_host
        }),
{
    let tabs = app.backdrop().tabs;
    let host = app.hosts[i];
    let (sign, _, _) = state_of(host.status);
    assert(texts_of(tabs[i]) =~= seq![
        "["@ + dec((i + 1) as nat) + "] "@,
        sign,
        host.display_name,
        " ("@ + dec(host.tunnels.len()) + ")"@,
    ]);
    assert(texts_of(tabs.last()) =~= seq![" [+] 新建主机 (n) "@]);
}

/// Of the host that is shown stand its address, the state of its connection, and what it
/// receives and sends now, in this order.
pub proof fn lemma_host_shown(app: AppView)
    ensures
        app.active_host >= app.hosts.len() ==> app.backdrop().host_line is None,
        app.active_host < app.hosts.len() ==> {
            let host = app.hosts[app.active_host as int];
            let (_, words, color) = state_of(host.status);
            let line = app.backdrop().host_line;
            &&& line is Some
            &&& texts_of(line->0) == seq![
                " 当前主机: "@,
                host.params.user + "@"@ + host.params.host + ":"@ + dec(
                    host.params.ssh_port as nat,
                ),
                "  ·  状态: "@,
                words,
                "  ·  实时速率: "@,
                "↓ "@ + amount(host.total_rx_rate, "/s"@) + "  ↑ "@ + amount(
                    host.total_tx_rate,
                    "/s"@,
                ),
            ]
            &&& line->0[3].style == coloured(color, true)
        },
{
    if app.active_host < app.hosts.len() {
        let host = app.hosts[app.active_host as int];
        let (_, words, _) = state_of(host.status);
        assert(texts_of(app.backdrop().host_line->0) =~= seq![
            " 当前主机: "@,
            host.params.user + "@"@ + host.params.host + ":"@ + dec(host.params.ssh_port as nat),
            "  ·  状态: "@,
            words,
            "  ·  实时速率: "@,
            "↓ "@ + amount(host.total_rx_rate, "/s"@) + "  ↑ "@ + amount(
                host.total_tx_rate,
                "/s"@,
            ),
        ]);
    }
}

/// A message stands in the frame, at its end, as a success or as an error; and the frame has
/// the colour that goes with it.
pub proof fn lemma_message_shown(app: AppView, message: Seq<char>, is_error: bool)
    requires
        app.status == Some((message, is_error)),
    ensures
        ({
            let b = app.backdrop();
            &&& b.title.len() >= 2
            &&& is_error ==> b.title.last().text == "✖ "@ + message + " "@
            &&& is_error ==> b.title.last().style == coloured(Color::Red, true)
            &&& !is_error ==> b.title.last().text == "✔ "@ + message + " "@
            &&& !is_error ==> b.title.last().style == coloured(Color::Green, true)
            &&& is_error ==> b.frame == coloured(Color::Red, true)
            &&& !is_error ==> b.frame == coloured(Color::Green, false)
        }),
{
}

/// The title says how many hosts there are.
pub proof fn lemma_title(app: AppView)
    ensures
        app.hosts.len() > 0 ==> app.backdrop().title[2].text == "("@ + dec(app.hosts.len())
            + " 台主机 · [1-9/H/L] 快速切换) "@,
        app.hosts.len() == 0 && app.status is None ==> app.backdrop().title[2].text
            == "(0 台主机已连接) "@,
        app.hosts.len() == 0 ==> app.backdrop().tabs.len() == 0,
        app.status is None ==> app.backdrop().frame == coloured(Color::Cyan, false),
{
}

// ---------- The forms ----------

/// What stands in a field: what was typed, with a cursor where it has the focus, and a hint
/// where nothing was typed.
pub open spec fn in_field(typed: Seq<char>, hint: Seq<char>, focused: bool) -> Seq<char> {
    if focused {
        " "@ + (typed + "█"@) + " "@
    } else if typed.len() == 0 {
        " "@ + hint + " "@
    } else {
        " "@ + typed + " "@
    }
}

/// The form for a host shows the target, the chosen way to log in, the key file, or as many
/// dots as the password has bytes; and a form is shown where one is open.
pub proof fn lemma_host_form_shown(app: AppView)
    requires
        app.mode is ConnectHost,
    ensures
        ({
            let f = app.form_connect;
            let p = app.popup();
            let secret = f.focus == ConnectFocus::AuthSecret;
            let dots = Seq::new(vstd::utf8::encode_utf8(f.password).len(), |i: int| '•');
            let key = f.auth_type == AuthType::KeyFile;
            &&& p is Host
            &&& p->target[1].text == in_field(
                f.target,
                "user@host:port 或 ~/.ssh/config 别名"@,
                f.focus == ConnectFocus::Target,
            )
            &&& p->auth[1].text == (if key {
                " (●) "@
            } else {
                " (○) "@
            }) + "🔑 私钥认证"@ + " "@
            &&& p->auth[3].text == (if key {
                " (○) "@
            } else {
                " (●) "@
            }) + "🔒 密码认证"@ + " "@
            &&& key ==> p->secret[1].text == in_field(
                f.key_path,
                "~/.ssh/id_ed25519 (默认)"@,
                secret,
            )
            &&& !key ==> p->secret[1].text == in_field(dots, "请输入 SSH 登录密码"@, secret)
            &&& p->Host_list.rows.len() == f.config_hosts.len()
            &&& p->Host_list.selected == f.config_selected
        }),
{
    let f = app.form_connect;
    let dots = Seq::new(vstd::utf8::encode_utf8(f.password).len(), |i: int| '•');
    assert(crate::popups::dots(f.password) =~= dots);
}

/// The list of known hosts shows each of them, in order: its name, address, user and port, and
/// whether a host of that name is there.
pub proof fn lemma_known_host_shown(app: AppView, i: int, k: int)
    requires
        app.mode is ConnectHost,
        0 <= i < app.form_connect.config_hosts.len(),
    ensures
        ({
            let h = app.form_connect.config_hosts[i];
            let cells = app.popup()->Host_list.rows[i].cells;
            let marked = app.form_connect.focus == ConnectFocus::ConfigList && i
                == app.form_connect.config_selected;
            &&& cells.len() == 5
            &&& marked ==> cells[0].text == "▶ "@ + h.alias
            &&& !marked ==> cells[0].text == "  "@ + h.alias
            &&& cells[1].text == h.host_name
            &&& h.user.len() > 0 ==> cells[2].text == h.user
            &&& h.user.len() == 0 ==> cells[2].text == "（默认）"@
            &&& cells[3].text == dec(h.port as nat)
            &&& 0 <= k < app.hosts.len() && app.hosts[k].id == h.alias ==> cells[4].text
                == "● 已连接"@
            &&& (forall|j: int| 0 <= j < app.hosts.len() ==> (#[trigger] app.hosts[j]).id != h.alias)
                ==> cells[4].text == "○ 未连接"@
        }),
{
}

/// The form for a tunnel shows the host that it is for, the local port, the remote end, and
/// the remote ports that were found.
pub proof fn lemma_tunnel_form_shown(app: AppView)
    requires
        app.mode is InputTunnel,
    ensures
        ({
            let f = app.form_tunnel;
            let p = app.popup();
            &&& p is Tunnel
            &&& p->title == " ➕ 新建隧道 / 端口转发 · 目标主机 ["@ + f.session_id + "] "@
            &&& p->local[1].text == in_field(
                f.local_port,
                "（必填，例如 8080）"@,
                f.focus == FormTunnelFocus::LocalPort,
            )
            &&& p->remote[1].text == in_field(
                f.remote,
                "（留空默认 localhost:本地端口）"@,
                f.focus == FormTunnelFocus::RemoteTarget,
            )
            &&& p->Tunnel_list.rows.len() == app.remote_ports.len()
            &&& p->Tunnel_list.selected == app.ports_selected
        }),
{
}

/// The list of remote ports shows each of them, in order: its number, the process behind it,
/// and whether a tunnel of the host that is shown leads there, from which local port, and
/// whether it runs.
pub proof fn lemma_remote_port_shown(app: AppView, i: int, k: int)
    requires
        app.mode is InputTunnel,
        0 <= i < app.remote_ports.len(),
        app.active_host < app.hosts.len(),
    ensures
        ({
            let r = app.remote_ports[i];
            let tunnels = app.hosts[app.active_host as int].tunnels;
            let cells = app.popup()->Tunnel_list.rows[i].cells;
            let marked = app.form_tunnel.focus == FormTunnelFocus::RemoteList && i
                == app.ports_selected;
            let first = 0 <= k < tunnels.len() && tunnels[k].remote_port == r.port && forall|
                j: int,
            |
                0 <= j < k ==> (#[trigger] tunnels[j]).remote_port != r.port;
            let none = forall|j: int|
                0 <= j < tunnels.len() ==> (#[trigger] tunnels[j]).remote_port != r.port;
            &&& cells.len() == 3
            &&& marked ==> cells[0].text == "▶ "@ + dec(r.port as nat)
            &&& !marked ==> cells[0].text == "  "@ + dec(r.port as nat)
            &&& r.process.len() > 0 ==> cells[1].text == r.process
            &&& r.process.len() == 0 ==> cells[1].text == "未知进程"@
            &&& first && tunnels[k].enabled ==> cells[2].text == "● 已映射 (本地 "@ + dec(
                tunnels[k].local_port as nat,
            ) + ")"@
            &&& first && !tunnels[k].enabled ==> cells[2].text == "○ 已映射但停用 (本地 "@ + dec(
                tunnels[k].local_port as nat,
            ) + ")"@
            &&& none ==> cells[2].text == "○ 未映射"@
            &&& first && tunnels[k].enabled ==> cells[2].style == coloured(Color::Green, false)
            &&& first && !tunnels[k].enabled ==> cells[2].style == coloured(Color::Yellow, false)
            &&& none ==> cells[2].style == coloured(Color::DarkGray, false)
        }),
{
    let r = app.remote_ports[i];
    let tunnels = app.hosts[app.active_host as int].tunnels;
    if 0 <= k < tunnels.len() && tunnels[k].remote_port == r.port && forall|j: int|
        0 <= j < k ==> (#[trigger] tunnels[j]).remote_port != r.port {
        lemma_tunnel_to(tunnels, r.port, k);
    }
    if forall|j: int| 0 <= j < tunnels.len() ==> (#[trigger] tunnels[j]).remote_port != r.port {
        lemma_no_tunnel_to(tunnels, r.port);
    }
}

proof fn lemma_tunnel_to(tunnels: Seq<TunnelInfoView>, port: u16, k: int)
    requires
        0 <= k < tunnels.len(),
        tunnels[k].remote_port == port,
        forall|j: int| 0 <= j < k ==> (#[trigger] tunnels[j]).remote_port != port,
    ensures
        tunnel_to(tunnels, port) == Some(tunnels[k]),
    decreases k,
{
    if k > 0 {
        assert(tunnels[0].remote_port != port);
        let rest = tunnels.drop_first();
        assert forall|j: int| 0 <= j < k - 1 implies (#[trigger] rest[j]).remote_port != port by {
            assert(rest[j] == tunnels[j + 1]);
        }
        lemma_tunnel_to(rest, port, k - 1);
    }
}

proof fn lemma_no_tunnel_to(tunnels: Seq<TunnelInfoView>, port: u16)
    requires
        forall|j: int| 0 <= j < tunnels.len() ==> (#[trigger] tunnels[j]).remote_port != port,
    ensures
        tunnel_to(tunnels, port) is None,
    decreases tunnels.len(),
{
    if tunnels.len() > 0 {
        assert(tunnels[0].remote_port != port);
        let rest = tunnels.drop_first();
        assert forall|j: int| 0 <= j < rest.len() implies (#[trigger] rest[j]).remote_port
            != port by {
            assert(rest[j] == tunnels[j + 1]);
        }
        lemma_no_tunnel_to(rest, port);
    }
}

/// No form is shown where none is open.
pub proof fn lemma_no_form(app: AppView)
    requires
        app.mode is List || app.mode is Log,
    ensures
        app.popup() == PopupView::Closed,
{
}

/// What is drawn is what is meant to stand there: each piece has its text and its style.
pub proof fn lemma_drawn(span: Span, row: TableRow, drawn: Backdrop)
    ensures
        span@.text == span.text@,
        span@.style == span.style,
        row@.style == row.style,
        row@.cells.len() == row.cells@.len(),
        forall|i: int| 0 <= i < row.cells@.len() ==> #[trigger] row@.cells[i] == row.cells@[i]@,
        drawn@.frame == drawn.frame,
        drawn@.active_tab == drawn.active_tab,
        drawn@.footer == drawn.footer@,
        drawn@.title.len() == drawn.title@.len(),
        forall|i: int|
            0 <= i < drawn.title@.len() ==> #[trigger] drawn@.title[i] == drawn.title@[i]@,
        match (drawn.body, drawn@.body) {
            (Body::Tunnels(title, rows, selected), BodyView::Tunnels(t, r, s)) => title@ == t
                && selected == s && rows@.len() == r.len() && forall|i: int|
                0 <= i < rows@.len() ==> #[trigger] r[i] == rows@[i]@,
            (Body::Log(title, lines), BodyView::Log(t, l)) => title@ == t && lines@.len() == l.len()
                && forall|i: int| 0 <= i < lines@.len() ==> #[trigger] l[i] == lines@[i]@,
            (Body::NoTunnels(title, note), BodyView::NoTunnels(t, n)) => title@ == t && note@ == n,
            (Body::Welcome(_), BodyView::Welcome(_)) => true,
            _ => false,
        },
{
}

/// Above the lists of the forms stands what is in them, and in the place of an empty one that
/// it is empty. While ports are being looked for, that is said.
pub proof fn lemma_list_titles(app: AppView)
    ensures
        app.mode is ConnectHost ==> {
            let list = app.popup()->Host_list;
            &&& list.title == " 📋 ~/.ssh/config 发现的主机 ("@ + dec(
                app.form_connect.config_hosts.len(),
            ) + " 个 · 回车一键连接 / 空格填入) "@
            &&& list.note == "  ○ 未在 ~/.ssh/config 中发现有效主机配置，请在上方手动输入"@
        },
        app.mode is InputTunnel ==> {
            let list = app.popup()->Tunnel_list;
            let looking = app.pending_scan is Some;
            &&& looking ==> list.title == " ⚡ 远端可用服务 (🔍 正在探测中...) "@
            &&& !looking && app.remote_ports.len() == 0 ==> list.title
                == " ⚡ 远端可用服务 (未检测到监听服务 · 按 r 刷新) "@
            &&& !looking && app.remote_ports.len() > 0 ==> list.title
                == " ⚡ 远端可用服务 (回车一键转发 · 空格填入表单 · 按 r 刷新) "@
            &&& looking ==> list.note == "  ⏳ 正在通过 SSH 会话执行端口探测 (ss / netstat)..."@
            &&& !looking ==> list.note
                == "  ○ 暂未检测到远端监听的 TCP 服务 (可在上方手动输入，或按 r 刷新探测)"@
        },
{
}

/// The line at the bottom of the list says what its keys do, and the last line of a form what
/// those of the part with the focus do.
pub proof fn lemma_hints(app: AppView)
    ensures
        !(app.mode is Log) ==> app.backdrop().footer
            == " [1-9/H/L]切换主机  [n]连接主机  [x]断开主机  [r]重连  [a]新建隧道  [Space/s]启停  [d]删除  [l]日志  [q]退出"@,
        app.mode is ConnectHost && app.form_connect.focus == ConnectFocus::ConfigList
            ==> texts_of(app.popup()->Host_hint) == seq![
            " [Enter] "@,
            "⚡一键连接   "@,
            " [Space] "@,
            "填入表单修改   "@,
            " [↑/↓/j/k] "@,
            "选择   "@,
            " [Tab/Esc] "@,
            "返回输入/取消"@,
        ],
        app.mode is ConnectHost && app.form_connect.focus != ConnectFocus::ConfigList
            ==> texts_of(app.popup()->Host_hint) == seq![
            " [Tab/Shift-Tab] "@,
            "切换焦点   "@,
            " [Enter] "@,
            "确认连接   "@,
            " [↓] "@,
            "选配置列表   "@,
            " [Esc] "@,
            "取消"@,
        ],
        app.mode is InputTunnel && app.form_tunnel.focus == FormTunnelFocus::RemoteList
            ==> texts_of(app.popup()->Tunnel_hint) == seq![
            " [Enter] "@,
            "⚡一键创建   "@,
            " [Space] "@,
            "填入表单修改   "@,
            " [↑/↓/j/k] "@,
            "选择   "@,
            " [r] "@,
            "刷新   "@,
            " [Tab/Esc] "@,
            "返回输入/取消"@,
        ],
        app.mode is InputTunnel && app.form_tunnel.focus != FormTunnelFocus::RemoteList
            ==> texts_of(app.popup()->Tunnel_hint) == seq![
            " [Tab/Shift-Tab] "@,
            "切换输入/列表   "@,
            " [Enter] "@,
            "确认创建   "@,
            " [↓] "@,
            "快速选端口   "@,
            " [Esc] "@,
            "取消"@,
        ],
{
}

/// Without a host it is said how to get one, and how to leave.
pub proof fn lemma_welcome(app: AppView)
    requires
        !(app.mode is Log),
        app.active_host >= app.hosts.len(),
    ensures
        ({
            let body = app.backdrop().body;
            &&& body is Welcome
            &&& body->Welcome_0.len() == 6
            &&& texts_of(body->Welcome_0[1]) == seq!["✨ 欢迎使用 mtui 动态 SSH 隧道管理"@]
            &&& texts_of(body->Welcome_0[3]) == seq!["当前未连接任何 SSH 主机。你可以："@]
            &&& texts_of(body->Welcome_0[4]) == seq![
                "  • 按 "@,
                "[n]"@,
                " 连接新主机（支持输入 user@host、密码/私钥认证或直接读取 ~/.ssh/config 别名）"@,
            ]
            &&& texts_of(body->Welcome_0[5]) == seq!["  • 按 "@, "[q]"@, " 退出程序"@]
        }),
{
}

} // verus!
