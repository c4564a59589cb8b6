//! The forms as they stand on the screen.

use vstd::prelude::*;

use crate::app::App;
use crate::app::AppView;
use crate::app::Mode;
use crate::forms::AuthType;
use crate::forms::ConnectFocus;
use crate::forms::FormConnectHost;
use crate::forms::FormConnectView;
use crate::forms::FormTunnel;
use crate::forms::FormTunnelFocus;
use crate::forms::FormTunnelView;
use crate::ports::RemotePort;
use crate::styles::add_span;
use crate::styles::bold;
use crate::styles::bold_style;
use crate::styles::fg;
use crate::styles::fg_style;
use crate::styles::marked;
use crate::styles::marked_style;
use crate::styles::new_line;
use crate::styles::plain;
use crate::styles::plain_style;
use crate::styles::row_views;
use crate::styles::span;
use crate::styles::span_of;
use crate::styles::span_views;
use crate::styles::styled;
use crate::styles::Color;
use crate::styles::RowView;
use crate::styles::Span;
use crate::styles::SpanView;
use crate::styles::Style;
use crate::styles::TableRow;
use crate::summary::summary_views;
use crate::summary::HostSummary;
use crate::summary::HostSummaryView;
use crate::target::SshConfigHost;
use crate::text::dec;
use crate::text::decimal;
use crate::tunnel::info_views;
use crate::tunnel::numbered;
use crate::tunnel::quoted;
use crate::tunnel::write_numbered;
use crate::tunnel::write_pair;
use crate::tunnel::write_quoted;
use crate::tunnel::TunnelInfo;
use crate::tunnel::TunnelInfoView;

verus! {

// ---------- Fields ----------

/// The mark before what has the focus.
pub open spec fn mark(focused: bool) -> Seq<char> {
    if focused {
        "▶ "@
    } else {
        "  "@
    }
}

/// The name of a field, marked where it has the focus.
pub open spec fn label(name: Seq<char>, focused: bool) -> SpanView {
    styled(
        mark(focused) + name,
        if focused {
            bold_style(Color::Cyan)
        } else {
            fg_style(Color::Gray)
        },
    )
}

/// The text of a field, with a cursor where it has the focus, and a hint where it is empty.
pub open spec fn field(value: Seq<char>, hint: Seq<char>, focused: bool, color: Color) -> SpanView {
    let shown = if value.len() == 0 && !focused {
        hint
    } else if focused {
        value + "█"@
    } else {
        value
    };
    styled(
        quoted(" "@, shown, " "@),
        if focused {
            marked_style(Color::Cyan)
        } else if value.len() == 0 {
            fg_style(Color::DarkGray)
        } else {
            bold_style(color)
        },
    )
}

fn draw_mark(focused: bool) -> (s: &'static str)
    ensures
        s@ == mark(focused),
{
    if focused {
        "▶ "
    } else {
        "  "
    }
}

fn draw_label(name: &str, focused: bool) -> (r: Span)
    ensures
        r@ == label(name@, focused),
{
    let style = if focused {
        bold(Color::Cyan)
    } else {
        fg(Color::Gray)
    };
    span_of(write_pair(draw_mark(focused), name), style)
}

fn draw_field(value: &str, hint: &str, focused: bool, color: Color) -> (r: Span)
    ensures
        r@ == field(value@, hint@, focused, color),
{
    let empty = value.is_empty();
    let shown = if empty && !focused {
        hint.to_string()
    } else if focused {
        write_pair(value, "█")
    } else {
        value.to_string()
    };
    let style = if focused {
        marked(Color::Cyan)
    } else if empty {
        fg(Color::DarkGray)
    } else {
        bold(color)
    };
    span_of(write_quoted(" ", shown.as_str(), " "), style)
}

// ---------- Lists ----------

/// A list in a form. Where it has no rows, a note stands in its place.
#[derive(Debug, PartialEq, Eq)]
pub struct ListBox {
    pub title: String,
    pub title_style: Style,
    pub border_style: Style,
    pub rows: Vec<TableRow>,
    pub selected: usize,
    pub highlight: Style,
    pub note: String,
}

/// A list in a form, as a mathematical value.
#[verifier::ext_equal]
pub struct ListBoxView {
    pub title: Seq<char>,
    pub title_style: Style,
    pub border_style: Style,
    pub rows: Seq<RowView>,
    pub selected: usize,
    pub highlight: Style,
    pub note: Seq<char>,
}

impl View for ListBox {
    type V = ListBoxView;

    open spec fn view(&self) -> ListBoxView {
        ListBoxView {
            title: self.title@,
            title_style: self.title_style,
            border_style: self.border_style,
            rows: row_views(self.rows@),
            selected: self.selected,
            highlight: self.highlight,
            note: self.note@,
        }
    }
}

/// A list in a form, in the styles that go with the focus.
pub open spec fn list_box(
    title: Seq<char>,
    focused: bool,
    rows: Seq<RowView>,
    selected: usize,
    note: Seq<char>,
) -> ListBoxView {
    ListBoxView {
        title,
        title_style: if focused {
            bold_style(Color::Yellow)
        } else {
            fg_style(Color::Gray)
        },
        border_style: if focused {
            bold_style(Color::Yellow)
        } else {
            fg_style(Color::DarkGray)
        },
        rows,
        selected,
        highlight: if focused {
            marked_style(Color::Yellow)
        } else {
            Style { fg: Some(Color::White), bg: Some(Color::DarkGray), bold: false }
        },
        note,
    }
}

fn draw_list_box(
    title: String,
    focused: bool,
    rows: Vec<TableRow>,
    selected: usize,
    note: &str,
) -> (r: ListBox)
    ensures
        r@ == list_box(title@, focused, row_views(rows@), selected, note@),
{
    ListBox {
        title,
        title_style: if focused {
            bold(Color::Yellow)
        } else {
            fg(Color::Gray)
        },
        border_style: if focused {
            bold(Color::Yellow)
        } else {
            fg(Color::DarkGray)
        },
        rows,
        selected,
        highlight: if focused {
            marked(Color::Yellow)
        } else {
            Style { fg: Some(Color::White), bg: Some(Color::DarkGray), bold: false }
        },
        note: note.to_string(),
    }
}

/// The first cell of a row, marked where the row is selected.
pub open spec fn first_cell(text: Seq<char>, selected: bool) -> SpanView {
    styled(
        mark(selected) + text,
        if selected {
            bold_style(Color::Yellow)
        } else {
            fg_style(Color::Cyan)
        },
    )
}

fn draw_first_cell(text: &str, selected: bool) -> (r: Span)
    ensures
        r@ == first_cell(text@, selected),
{
    let style = if selected {
        bold(Color::Yellow)
    } else {
        fg(Color::Cyan)
    };
    span_of(write_pair(draw_mark(selected), text), style)
}

// ---------- The form for a host ----------

/// As many dots as a text has bytes.
pub open spec fn dots(text: Seq<char>) -> Seq<char> {
    Seq::new(vstd::utf8::encode_utf8(text).len(), |i: int| '•')
}

impl FormConnectView {
    /// The line of the target.
    pub open spec fn target_line(self) -> Seq<SpanView> {
        let focused = self.focus == ConnectFocus::Target;
        seq![
            label("目标主机: "@, focused),
            field(self.target, "user@host:port 或 ~/.ssh/config 别名"@, focused, Color::White),
        ]
    }

    /// One of the two kinds of login.
    pub open spec fn choice(self, name: Seq<char>, chosen: bool) -> SpanView {
        styled(
            quoted(
                if chosen {
                    " (●) "@
                } else {
                    " (○) "@
                },
                name,
                " "@,
            ),
            if !chosen {
                fg_style(Color::DarkGray)
            } else if self.focus == ConnectFocus::AuthTypeToggle {
                marked_style(Color::Cyan)
            } else {
                bold_style(Color::Cyan)
            },
        )
    }

    /// The line of the kind of login.
    pub open spec fn auth_line(self) -> Seq<SpanView> {
        seq![
            label("认证方式: "@, self.focus == ConnectFocus::AuthTypeToggle),
            self.choice("🔑 私钥认证"@, self.auth_type == AuthType::KeyFile),
            styled("   "@, plain_style()),
            self.choice("🔒 密码认证"@, self.auth_type == AuthType::Password),
            styled("   (按 空格 或 ←/→ 切换)"@, fg_style(Color::DarkGray)),
        ]
    }

    /// The line of the key file, or of the password, of which only dots are shown.
    pub open spec fn secret_line(self) -> Seq<SpanView> {
        let focused = self.focus == ConnectFocus::AuthSecret;
        match self.auth_type {
            AuthType::KeyFile => seq![
                label("私钥路径: "@, focused),
                field(self.key_path, "~/.ssh/id_ed25519 (默认)"@, focused, Color::White),
            ],
            AuthType::Password => seq![
                label("登录密码: "@, focused),
                field(dots(self.password), "请输入 SSH 登录密码"@, focused, Color::Yellow),
            ],
        }
    }

    /// What the keys do in the form.
    pub open spec fn hint_line(self) -> Seq<SpanView> {
        match self.focus {
            ConnectFocus::ConfigList => seq![
                styled(" [Enter] "@, bold_style(Color::Green)),
                styled("⚡一键连接   "@, bold_style(Color::Green)),
                styled(" [Space] "@, fg_style(Color::Cyan)),
                styled("填入表单修改   "@, plain_style()),
                styled(" [↑/↓/j/k] "@, fg_style(Color::Yellow)),
                styled("选择   "@, plain_style()),
                styled(" [Tab/Esc] "@, fg_style(Color::Gray)),
                styled("返回输入/取消"@, plain_style()),
            ],
            _ => seq![
                styled(" [Tab/Shift-Tab] "@, fg_style(Color::Yellow)),
                styled("切换焦点   "@, plain_style()),
                styled(" [Enter] "@, fg_style(Color::Green)),
                styled("确认连接   "@, plain_style()),
                styled(" [↓] "@, fg_style(Color::Cyan)),
                styled("选配置列表   "@, plain_style()),
                styled(" [Esc] "@, fg_style(Color::Red)),
                styled("取消"@, plain_style()),
            ],
        }
    }

    /// The row of a listed host.
    pub open spec fn host_row(self, hosts: Seq<HostSummaryView>, i: int) -> RowView {
        let host = self.config_hosts[i];
        RowView {
            cells: seq![
                first_cell(
                    host.alias,
                    self.focus == ConnectFocus::ConfigList && i == self.config_selected,
                ),
                styled(host.host_name, fg_style(Color::White)),
                styled(
                    if host.user.len() == 0 {
                        "（默认）"@
                    } else {
                        host.user
                    },
                    fg_style(Color::Gray),
                ),
                styled(dec(host.port as nat), fg_style(Color::Gray)),
                if names_host(hosts, host.alias) {
                    styled("● 已连接"@, fg_style(Color::Green))
                } else {
                    styled("○ 未连接"@, fg_style(Color::DarkGray))
                },
            ],
            style: plain_style(),
        }
    }

    /// The list of hosts.
    pub open spec fn host_list(self, hosts: Seq<HostSummaryView>) -> ListBoxView {
        list_box(
            numbered(
                " 📋 ~/.ssh/config 发现的主机 ("@,
                self.config_hosts.len(),
                " 个 · 回车一键连接 / 空格填入) "@,
            ),
            self.focus == ConnectFocus::ConfigList,
            Seq::new(self.config_hosts.len(), |i: int| self.host_row(hosts, i)),
            self.config_selected,
            "  ○ 未在 ~/.ssh/config 中发现有效主机配置，请在上方手动输入"@,
        )
    }
}

/// Whether a host of that name is among those that are connected.
pub open spec fn names_host(hosts: Seq<HostSummaryView>, name: Seq<char>) -> bool {
    exists|i: int| 0 <= i < hosts.len() && (#[trigger] hosts[i]).id == name
}

fn has_host(hosts: &Vec<HostSummary>, name: &String) -> (r: bool)
    ensures
        r == names_host(summary_views(hosts@), name@),
{
    let ghost all = summary_views(hosts@);
    for i in 0..hosts.len()
        invariant
            all == summary_views(hosts@),
            forall|k: int| 0 <= k < i ==> (#[trigger] all[k]).id != name@,
    {
        assert(all[i as int] == hosts@[i as int]@);
        if hosts[i].id == *name {
            assert(all[i as int].id == name@);
            return true;
        }
    }
    false
}

fn draw_dots(text: &str) -> (s: String)
    ensures
        s@ == dots(text@),
{
    let bytes: &[u8] = text.as_bytes();
    let mut s = String::new();
    for i in 0..bytes.len()
        invariant
            s@ == Seq::new(i as nat, |k: int| '•'),
    {
        s.push('•');
        assert(s@ =~= Seq::new((i + 1) as nat, |k: int| '•'));
    }
    s
}

impl FormConnectHost {
    fn draw_target_line(&self) -> (line: Vec<Span>)
        ensures
            span_views(line@) == self@.target_line(),
    {
        let focused = self.focus == ConnectFocus::Target;
        let mut line = new_line();
        add_span(&mut line, draw_label("目标主机: ", focused));
        add_span(
            &mut line,
            draw_field(
                self.target.as_str(),
                "user@host:port 或 ~/.ssh/config 别名",
                focused,
                Color::White,
            ),
        );
        line
    }

    fn draw_choice(&self, name: &str, chosen: bool) -> (r: Span)
        ensures
            r@ == self@.choice(name@, chosen),
    {
        let button = if chosen {
            " (●) "
        } else {
            " (○) "
        };
        let style = if !chosen {
            fg(Color::DarkGray)
        } else if self.focus == ConnectFocus::AuthTypeToggle {
            marked(Color::Cyan)
        } else {
            bold(Color::Cyan)
        };
        span_of(write_quoted(button, name, " "), style)
    }

    fn draw_auth_line(&self) -> (line: Vec<Span>)
        ensures
            span_views(line@) == self@.auth_line(),
    {
        let mut line = new_line();
        add_span(
            &mut line,
            draw_label("认证方式: ", self.focus == ConnectFocus::AuthTypeToggle),
        );
        add_span(
            &mut line,
            self.draw_choice("🔑 私钥认证", self.auth_type == AuthType::KeyFile),
        );
        add_span(&mut line, span("   ", plain()));
        add_span(
            &mut line,
            self.draw_choice("🔒 密码认证", self.auth_type == AuthType::Password),
        );
        add_span(&mut line, span("   (按 空格 或 ←/→ 切换)", fg(Color::DarkGray)));
        line
    }

    fn draw_secret_line(&self) -> (line: Vec<Span>)
        ensures
            span_views(line@) == self@.secret_line(),
    {
        let focused = self.focus == ConnectFocus::AuthSecret;
        let mut line = new_line();
        match self.auth_type {
            AuthType::KeyFile => {
                add_span(&mut line, draw_label("私钥路径: ", focused));
                add_span(
                    &mut line,
                    draw_field(
                        self.key_path.as_str(),
                        "~/.ssh/id_ed25519 (默认)",
                        focused,
                        Color::White,
                    ),
                );
            },
            AuthType::Password => {
                let masked = draw_dots(self.password.as_str());
                add_span(&mut line, draw_label("登录密码: ", focused));
                add_span(
                    &mut line,
                    draw_field(
                        masked.as_str(),
                        "请输入 SSH 登录密码",
                        focused,
                        Color::Yellow,
                    ),
                );
            },
        }
        line
    }

    fn draw_hint_line(&self) -> (line: Vec<Span>)
        ensures
            span_views(line@) == self@.hint_line(),
    {
        let mut line = new_line();
        match self.focus {
            ConnectFocus::ConfigList => {
                add_span(&mut line, span(" [Enter] ", bold(Color::Green)));
                add_span(&mut line, span("⚡一键连接   ", bold(Color::Green)));
                add_span(&mut line, span(" [Space] ", fg(Color::Cyan)));
                add_span(&mut line, span("填入表单修改   ", plain()));
                add_span(&mut line, span(" [↑/↓/j/k] ", fg(Color::Yellow)));
                add_span(&mut line, span("选择   ", plain()));
                add_span(&mut line, span(" [Tab/Esc] ", fg(Color::Gray)));
                add_span(&mut line, span("返回输入/取消", plain()));
            },
            _ => {
                add_span(&mut line, span(" [Tab/Shift-Tab] ", fg(Color::Yellow)));
                add_span(&mut line, span("切换焦点   ", plain()));
                add_span(&mut line, span(" [Enter] ", fg(Color::Green)));
                add_span(&mut line, span("确认连接   ", plain()));
                add_span(&mut line, span(" [↓] ", fg(Color::Cyan)));
                add_span(&mut line, span("选配置列表   ", plain()));
                add_span(&mut line, span(" [Esc] ", fg(Color::Red)));
                add_span(&mut line, span("取消", plain()));
            },
        }
        line
    }

    fn draw_host_row(&self, hosts: &Vec<HostSummary>, i: usize) -> (row: TableRow)
        requires
            i < self.config_hosts@.len(),
        ensures
            row@ == self@.host_row(summary_views(hosts@), i as int),
    {
        let host: &SshConfigHost = &self.config_hosts[i];
        assert(self@.config_hosts[i as int] == host@);
        let mut cells = new_line();
        add_span(
            &mut cells,
            draw_first_cell(
                host.alias.as_str(),
                self.focus == ConnectFocus::ConfigList && i == self.config_selected,
            ),
        );
        add_span(&mut cells, span(host.host_name.as_str(), fg(Color::White)));
        if host.user.as_str().is_empty() {
            add_span(&mut cells, span("（默认）", fg(Color::Gray)));
        } else {
            add_span(&mut cells, span(host.user.as_str(), fg(Color::Gray)));
        }
        add_span(&mut cells, span_of(decimal(host.port as u64), fg(Color::Gray)));
        if has_host(hosts, &host.alias) {
            add_span(&mut cells, span("● 已连接", fg(Color::Green)));
        } else {
            add_span(&mut cells, span("○ 未连接", fg(Color::DarkGray)));
        }
        TableRow { cells, style: plain() }
    }

    fn draw_host_list(&self, hosts: &Vec<HostSummary>) -> (r: ListBox)
        ensures
            r@ == self@.host_list(summary_views(hosts@)),
    {
        let ghost all = summary_views(hosts@);
        let mut rows: Vec<TableRow> = Vec::new();
        for i in 0..self.config_hosts.len()
            invariant
                all == summary_views(hosts@),
                rows@.len() == i,
                forall|k: int| 0 <= k < i ==> #[trigger] rows@[k]@ == self@.host_row(all, k),
        {
            rows.push(self.draw_host_row(hosts, i));
        }
        assert(row_views(rows@) =~= Seq::new(
            self@.config_hosts.len(),
            |i: int| self@.host_row(all, i),
        ));
        draw_list_box(
            write_numbered(
                " 📋 ~/.ssh/config 发现的主机 (",
                self.config_hosts.len() as u64,
                " 个 · 回车一键连接 / 空格填入) ",
            ),
            self.focus == ConnectFocus::ConfigList,
            rows,
            self.config_selected,
            "  ○ 未在 ~/.ssh/config 中发现有效主机配置，请在上方手动输入",
        )
    }
}

// ---------- The form for a tunnel ----------

/// The first snapshot of a tunnel to that remote port.
pub open spec fn tunnel_to(tunnels: Seq<TunnelInfoView>, port: u16) -> Option<TunnelInfoView>
    decreases tunnels.len(),
{
    if tunnels.len() == 0 {
        None
    } else if tunnels[0].remote_port == port {
        Some(tunnels[0])
    } else {
        tunnel_to(tunnels.drop_first(), port)
    }
}

/// Whether a tunnel leads to a remote port, and how it fares.
pub open spec fn mapping(tunnel: Option<TunnelInfoView>) -> SpanView {
    match tunnel {
        Some(t) => if t.enabled {
            styled(
                numbered("● 已映射 (本地 "@, t.local_port as nat, ")"@),
                fg_style(Color::Green),
            )
        } else {
            styled(
                numbered("○ 已映射但停用 (本地 "@, t.local_port as nat, ")"@),
                fg_style(Color::Yellow),
            )
        },
        None => styled("○ 未映射"@, fg_style(Color::DarkGray)),
    }
}

impl FormTunnelView {
    /// The line of the local port.
    pub open spec fn local_line(self) -> Seq<SpanView> {
        let focused = self.focus == FormTunnelFocus::LocalPort;
        seq![
            label("本地监听端口: "@, focused),
            field(self.local_port, "（必填，例如 8080）"@, focused, Color::White),
            styled("   (本机监听并转发流量的端口)"@, fg_style(Color::DarkGray)),
        ]
    }

    /// The line of the remote end.
    pub open spec fn remote_line(self) -> Seq<SpanView> {
        let focused = self.focus == FormTunnelFocus::RemoteTarget;
        seq![
            label("远端目标服务: "@, focused),
            field(self.remote, "（留空默认 localhost:本地端口）"@, focused, Color::White),
            styled("   (格式 host:port 或 纯端口)"@, fg_style(Color::DarkGray)),
        ]
    }

    /// What the keys do in the form.
    pub open spec fn hint_line(self) -> Seq<SpanView> {
        match self.focus {
            FormTunnelFocus::RemoteList => seq![
                styled(" [Enter] "@, bold_style(Color::Green)),
                styled("⚡一键创建   "@, bold_style(Color::Green)),
                styled(" [Space] "@, fg_style(Color::Cyan)),
                styled("填入表单修改   "@, plain_style()),
                styled(" [↑/↓/j/k] "@, fg_style(Color::Yellow)),
                styled("选择   "@, plain_style()),
                styled(" [r] "@, fg_style(Color::Magenta)),
                styled("刷新   "@, plain_style()),
                styled(" [Tab/Esc] "@, fg_style(Color::Gray)),
                styled("返回输入/取消"@, plain_style()),
            ],
            _ => seq![
                styled(" [Tab/Shift-Tab] "@, fg_style(Color::Yellow)),
                styled("切换输入/列表   "@, plain_style()),
                styled(" [Enter] "@, fg_style(Color::Green)),
                styled("确认创建   "@, plain_style()),
                styled(" [↓] "@, fg_style(Color::Cyan)),
                styled("快速选端口   "@, plain_style()),
                styled(" [Esc] "@, fg_style(Color::Red)),
                styled("取消"@, plain_style()),
            ],
        }
    }
}

impl AppView {
    /// The tunnels of the host that is shown.
    pub open spec fn current_tunnels(self) -> Seq<TunnelInfoView> {
        match self.current() {
            Some(host) => host.tunnels,
            None => Seq::empty(),
        }
    }

    /// The row of a remote port.
    pub open spec fn port_row(self, i: int) -> RowView {
        let p = self.remote_ports[i];
        RowView {
            cells: seq![
                first_cell(
                    dec(p.port as nat),
                    self.form_tunnel.focus == FormTunnelFocus::RemoteList && i
                        == self.ports_selected,
                ),
                styled(
                    if p.process.len() == 0 {
                        "未知进程"@
                    } else {
                        p.process
                    },
                    fg_style(Color::White),
                ),
                mapping(tunnel_to(self.current_tunnels(), p.port)),
            ],
            style: plain_style(),
        }
    }

    /// The list of remote ports.
    pub open spec fn port_list(self) -> ListBoxView {
        list_box(
            if self.pending_scan is Some {
                " ⚡ 远端可用服务 (🔍 正在探测中...) "@
            } else if self.remote_ports.len() == 0 {
                " ⚡ 远端可用服务 (未检测到监听服务 · 按 r 刷新) "@
            } else {
                " ⚡ 远端可用服务 (回车一键转发 · 空格填入表单 · 按 r 刷新) "@
            },
            self.form_tunnel.focus == FormTunnelFocus::RemoteList,
            Seq::new(self.remote_ports.len(), |i: int| self.port_row(i)),
            self.ports_selected,
            if self.pending_scan is Some {
                "  ⏳ 正在通过 SSH 会话执行端口探测 (ss / netstat)..."@
            } else {
                "  ○ 暂未检测到远端监听的 TCP 服务 (可在上方手动输入，或按 r 刷新探测)"@
            },
        )
    }
}

fn find_tunnel_to(tunnels: &Vec<TunnelInfo>, port: u16) -> (r: Option<&TunnelInfo>)
    ensures
        match r {
            Some(t) => tunnel_to(info_views(tunnels@), port) == Some(t@),
            None => tunnel_to(info_views(tunnels@), port) is None,
        },
{
    let ghost all = info_views(tunnels@);
    assert(all.skip(0) =~= all);
    for i in 0..tunnels.len()
        invariant
            all == info_views(tunnels@),
            tunnel_to(all, port) == tunnel_to(all.skip(i as int), port),
    {
        assert(all.skip(i as int)[0] == tunnels@[i as int]@);
        assert(all.skip(i as int).drop_first() =~= all.skip(i + 1));
        if tunnels[i].remote_port == port as u32 {
            return Some(&tunnels[i]);
        }
    }
    assert(all.skip(all.len() as int).len() == 0);
    None
}

fn draw_mapping(tunnel: Option<&TunnelInfo>) -> (r: Span)
    ensures
        match tunnel {
            Some(t) => r@ == mapping(Some(t@)),
            None => r@ == mapping(None),
        },
{
    match tunnel {
        Some(t) => if t.enabled {
            span_of(
                write_numbered("● 已映射 (本地 ", t.local_port as u64, ")"),
                fg(Color::Green),
            )
        } else {
            span_of(
                write_numbered("○ 已映射但停用 (本地 ", t.local_port as u64, ")"),
                fg(Color::Yellow),
            )
        },
        None => span("○ 未映射", fg(Color::DarkGray)),
    }
}

impl FormTunnel {
    fn draw_local_line(&self) -> (line: Vec<Span>)
        ensures
            span_views(line@) == self@.local_line(),
    {
        let focused = self.focus == FormTunnelFocus::LocalPort;
        let mut line = new_line();
        add_span(&mut line, draw_label("本地监听端口: ", focused));
        add_span(
            &mut line,
            draw_field(
                self.local_port.as_str(),
                "（必填，例如 8080）",
                focused,
                Color::White,
            ),
        );
        add_span(&mut line, span("   (本机监听并转发流量的端口)", fg(Color::DarkGray)));
        line
    }

    fn draw_remote_line(&self) -> (line: Vec<Span>)
        ensures
            span_views(line@) == self@.remote_line(),
    {
        let focused = self.focus == FormTunnelFocus::RemoteTarget;
        let mut line = new_line();
        add_span(&mut line, draw_label("远端目标服务: ", focused));
        add_span(
            &mut line,
            draw_field(
                self.remote.as_str(),
                "（留空默认 localhost:本地端口）",
                focused,
                Color::White,
            ),
        );
        add_span(&mut line, span("   (格式 host:port 或 纯端口)", fg(Color::DarkGray)));
        line
    }

    fn draw_hint_line(&self) -> (line: Vec<Span>)
        ensures
            span_views(line@) == self@.hint_line(),
    {
        let mut line = new_line();
        match self.focus {
            FormTunnelFocus::RemoteList => {
                add_span(&mut line, span(" [Enter] ", bold(Color::Green)));
                add_span(&mut line, span("⚡一键创建   ", bold(Color::Green)));
                add_span(&mut line, span(" [Space] ", fg(Color::Cyan)));
                add_span(&mut line, span("填入表单修改   ", plain()));
                add_span(&mut line, span(" [↑/↓/j/k] ", fg(Color::Yellow)));
                add_span(&mut line, span("选择   ", plain()));
                add_span(&mut line, span(" [r] ", fg(Color::Magenta)));
                add_span(&mut line, span("刷新   ", plain()));
                add_span(&mut line, span(" [Tab/Esc] ", fg(Color::Gray)));
                add_span(&mut line, span("返回输入/取消", plain()));
            },
            _ => {
                add_span(&mut line, span(" [Tab/Shift-Tab] ", fg(Color::Yellow)));
                add_span(&mut line, span("切换输入/列表   ", plain()));
                add_span(&mut line, span(" [Enter] ", fg(Color::Green)));
                add_span(&mut line, span("确认创建   ", plain()));
                add_span(&mut line, span(" [↓] ", fg(Color::Cyan)));
                add_span(&mut line, span("快速选端口   ", plain()));
                add_span(&mut line, span(" [Esc] ", fg(Color::Red)));
                add_span(&mut line, span("取消", plain()));
            },
        }
        line
    }
}

impl App {
    fn draw_port_row(&self, i: usize) -> (row: TableRow)
        requires
            i < self.remote_ports@.len(),
        ensures
            row@ == self@.port_row(i as int),
    {
        let p: &RemotePort = &self.remote_ports[i];
        assert(self@.remote_ports[i as int] == p@);
        let number = decimal(p.port as u64);
        let mut cells = new_line();
        add_span(
            &mut cells,
            draw_first_cell(
                number.as_str(),
                self.form_tunnel.focus == FormTunnelFocus::RemoteList && i == self.ports_selected,
            ),
        );
        if p.process.as_str().is_empty() {
            add_span(&mut cells, span("未知进程", fg(Color::White)));
        } else {
            add_span(&mut cells, span(p.process.as_str(), fg(Color::White)));
        }
        let mapped: Option<&TunnelInfo> = match self.current_host() {
            Some(host) => find_tunnel_to(&host.tunnels, p.port),
            None => None,
        };
        add_span(&mut cells, draw_mapping(mapped));
        TableRow { cells, style: plain() }
    }

    fn draw_port_list(&self) -> (r: ListBox)
        ensures
            r@ == self@.port_list(),
    {
        let mut rows: Vec<TableRow> = Vec::new();
        for i in 0..self.remote_ports.len()
            invariant
                rows@.len() == i,
                forall|k: int| 0 <= k < i ==> #[trigger] rows@[k]@ == self@.port_row(k),
        {
            rows.push(self.draw_port_row(i));
        }
        assert(row_views(rows@) =~= Seq::new(
            self@.remote_ports.len(),
            |i: int| self@.port_row(i),
        ));
        let scanning = self.pending_scan.is_some();
        let title = if scanning {
            " ⚡ 远端可用服务 (🔍 正在探测中...) "
        } else if self.remote_ports.len() == 0 {
            " ⚡ 远端可用服务 (未检测到监听服务 · 按 r 刷新) "
        } else {
            " ⚡ 远端可用服务 (回车一键转发 · 空格填入表单 · 按 r 刷新) "
        };
        let note = if scanning {
            "  ⏳ 正在通过 SSH 会话执行端口探测 (ss / netstat)..."
        } else {
            "  ○ 暂未检测到远端监听的 TCP 服务 (可在上方手动输入，或按 r 刷新探测)"
        };
        draw_list_box(
            title.to_string(),
            self.form_tunnel.focus == FormTunnelFocus::RemoteList,
            rows,
            self.ports_selected,
            note,
        )
    }
}

// ---------- Either form ----------

/// The form that is open.
#[derive(Debug, PartialEq, Eq)]
pub enum Popup {
    Closed,
    /// The form for a host.
    Host {
        target: Vec<Span>,
        auth: Vec<Span>,
        secret: Vec<Span>,
        list: ListBox,
        hint: Vec<Span>,
    },
    /// The form for a tunnel.
    Tunnel {
        title: String,
        local: Vec<Span>,
        remote: Vec<Span>,
        list: ListBox,
        hint: Vec<Span>,
    },
}

/// The form that is open, as a mathematical value.
#[verifier::ext_equal]
pub enum PopupView {
    Closed,
    Host {
        target: Seq<SpanView>,
        auth: Seq<SpanView>,
        secret: Seq<SpanView>,
        list: ListBoxView,
        hint: Seq<SpanView>,
    },
    Tunnel {
        title: Seq<char>,
        local: Seq<SpanView>,
        remote: Seq<SpanView>,
        list: ListBoxView,
        hint: Seq<SpanView>,
    },
}

impl View for Popup {
    type V = PopupView;

    open spec fn view(&self) -> PopupView {
        match self {
            Popup::Closed => PopupView::Closed,
            Popup::Host { target, auth, secret, list, hint } => PopupView::Host {
                target: span_views(target@),
                auth: span_views(auth@),
                secret: span_views(secret@),
                list: list@,
                hint: span_views(hint@),
            },
            Popup::Tunnel { title, local, remote, list, hint } => PopupView::Tunnel {
                title: title@,
                local: span_views(local@),
                remote: span_views(remote@),
                list: list@,
                hint: span_views(hint@),
            },
        }
    }
}

impl AppView {
    /// The form that is open.
    pub open spec fn popup(self) -> PopupView {
        match self.mode {
            Mode::ConnectHost => PopupView::Host {
                target: self.form_connect.target_line(),
                auth: self.form_connect.auth_line(),
                secret: self.form_connect.secret_line(),
                list: self.form_connect.host_list(self.hosts),
                hint: self.form_connect.hint_line(),
            },
            Mode::InputTunnel => PopupView::Tunnel {
                title: quoted(
                    " ➕ 新建隧道 / 端口转发 · 目标主机 ["@,
                    self.form_tunnel.session_id,
                    "] "@,
                ),
                local: self.form_tunnel.local_line(),
                remote: self.form_tunnel.remote_line(),
                list: self.port_list(),
                hint: self.form_tunnel.hint_line(),
            },
            _ => PopupView::Closed,
        }
    }
}

impl App {
    /// The form that is open.
    pub fn draw_popup(&self) -> (p: Popup)
        ensures
            p@ == self@.popup(),
    {
        match self.mode {
            Mode::ConnectHost => Popup::Host {
                target: self.form_connect.draw_target_line(),
                auth: self.form_connect.draw_auth_line(),
                secret: self.form_connect.draw_secret_line(),
                list: self.form_connect.draw_host_list(&self.hosts),
                hint: self.form_connect.draw_hint_line(),
            },
            Mode::InputTunnel => Popup::Tunnel {
                title: write_quoted(
                    " ➕ 新建隧道 / 端口转发 · 目标主机 [",
                    self.form_tunnel.session_id.as_str(),
                    "] ",
                ),
                local: self.form_tunnel.draw_local_line(),
                remote: self.form_tunnel.draw_remote_line(),
                list: self.draw_port_list(),
                hint: self.form_tunnel.draw_hint_line(),
            },
            _ => Popup::Closed,
        }
    }
}

} // verus!
