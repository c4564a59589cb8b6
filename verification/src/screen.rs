//! What stands on the screen behind the forms: the hosts, the tunnels of one, or a log.

use vstd::prelude::*;

use crate::app::find_tunnel;
use crate::app::tunnel_on;
use crate::app::App;
use crate::app::AppView;
use crate::app::Mode;
use crate::session::ConnectionStatus;
use crate::styles::add_line;
use crate::styles::add_span;
use crate::styles::bold;
use crate::styles::bold_style;
use crate::styles::fg;
use crate::styles::fg_style;
use crate::styles::line_views;
use crate::styles::new_line;
use crate::styles::no_lines;
use crate::styles::plain;
use crate::styles::plain_style;
use crate::styles::row_views;
use crate::styles::span;
use crate::styles::span_of;
use crate::styles::span_views;
use crate::styles::strong;
use crate::styles::strong_style;
use crate::styles::styled;
use crate::styles::Color;
use crate::styles::RowView;
use crate::styles::Span;
use crate::styles::SpanView;
use crate::styles::Style;
use crate::styles::TableRow;
use crate::summary::HostSummary;
use crate::summary::HostSummaryView;
use crate::target::address;
use crate::target::string_views;
use crate::target::write_address;
use crate::text::dec;
use crate::text::decimal;
use crate::tunnel::info_views;
use crate::tunnel::numbered;
use crate::tunnel::quoted;
use crate::tunnel::write_numbered;
use crate::tunnel::write_pair;
use crate::tunnel::write_quoted;
use crate::tunnel::TunnelInfo;
use crate::tunnel::TunnelInfoView;
use crate::units::amount;
use crate::units::fmt_bytes;
use crate::units::fmt_rate;

verus! {

// ---------- The hosts ----------

impl AppView {
    /// The frame round the hosts has the colour of the message.
    pub open spec fn frame_style(self) -> Style {
        match self.status {
            Some((_, is_error)) => if is_error {
                bold_style(Color::Red)
            } else {
                fg_style(Color::Green)
            },
            None => fg_style(Color::Cyan),
        }
    }

    /// The message, as it stands in the frame.
    pub open spec fn message_spans(self) -> Seq<SpanView> {
        match self.status {
            Some((message, is_error)) => seq![
                styled("· "@, fg_style(Color::DarkGray)),
                if is_error {
                    styled(quoted("✖ "@, message, " "@), bold_style(Color::Red))
                } else {
                    styled(quoted("✔ "@, message, " "@), bold_style(Color::Green))
                },
            ],
            None => Seq::empty(),
        }
    }

    /// The title in the frame.
    pub open spec fn title_spans(self) -> Seq<SpanView> {
        if self.hosts.len() == 0 {
            seq![
                styled(" ⚡ mtui "@, bold_style(Color::Cyan)),
                styled("· 多主机 SSH 动态隧道管理 "@, strong_style()),
            ] + if self.status is Some {
                self.message_spans()
            } else {
                seq![styled("(0 台主机已连接) "@, fg_style(Color::DarkGray))]
            }
        } else {
            seq![
                styled(" ⚡ mtui "@, bold_style(Color::Cyan)),
                styled("· 主机列表 "@, strong_style()),
                styled(
                    numbered("("@, self.hosts.len(), " 台主机 · [1-9/H/L] 快速切换) "@),
                    fg_style(Color::DarkGray),
                ),
            ] + self.message_spans()
        }
    }

    /// The tabs: one for each host, and one that tells how to add another. Without hosts there
    /// are none.
    pub open spec fn tab_lines(self) -> Seq<Seq<SpanView>> {
        if self.hosts.len() == 0 {
            Seq::empty()
        } else {
            Seq::new(self.hosts.len(), |i: int| tab_line(self.hosts[i], i)).push(
                seq![styled(" [+] 新建主机 (n) "@, fg_style(Color::DarkGray))],
            )
        }
    }
}

/// The sign of a state, and its colour.
pub open spec fn status_sign(status: ConnectionStatus) -> SpanView {
    match status {
        ConnectionStatus::Connected => styled("● "@, fg_style(Color::Green)),
        ConnectionStatus::Reconnecting(_) => styled("◐ "@, fg_style(Color::Yellow)),
        ConnectionStatus::Disconnected => styled("○ "@, fg_style(Color::Red)),
    }
}

/// The state in words.
pub open spec fn status_words(status: ConnectionStatus) -> SpanView {
    match status {
        ConnectionStatus::Connected => styled("● 已连接"@, bold_style(Color::Green)),
        ConnectionStatus::Reconnecting(_) => styled("◐ 重连中…"@, bold_style(Color::Yellow)),
        ConnectionStatus::Disconnected => styled("○ 已断开"@, bold_style(Color::Red)),
    }
}

/// The tab of the host at place `i`.
pub open spec fn tab_line(host: HostSummaryView, i: int) -> Seq<SpanView> {
    seq![
        styled(numbered("["@, (i + 1) as nat, "] "@), fg_style(Color::DarkGray)),
        status_sign(host.status),
        styled(host.display_name, strong_style()),
        styled(numbered(" ("@, host.tunnels.len(), ")"@), fg_style(Color::DarkGray)),
    ]
}

/// The line below the tabs: address, state and rates of the host that is shown.
pub open spec fn host_line(host: HostSummaryView) -> Seq<SpanView> {
    seq![
        styled(" 当前主机: "@, fg_style(Color::Gray)),
        styled(
            address(host.params.user, host.params.host, host.params.ssh_port),
            bold_style(Color::White),
        ),
        styled("  ·  状态: "@, fg_style(Color::Gray)),
        status_words(host.status),
        styled("  ·  实时速率: "@, fg_style(Color::Gray)),
        styled(
            quoted("↓ "@, amount(host.total_rx_rate, "/s"@), "  ↑ "@) + amount(
                host.total_tx_rate,
                "/s"@,
            ),
            fg_style(Color::Cyan),
        ),
    ]
}

fn draw_sign(status: ConnectionStatus) -> (r: Span)
    ensures
        r@ == status_sign(status),
{
    match status {
        ConnectionStatus::Connected => span("● ", fg(Color::Green)),
        ConnectionStatus::Reconnecting(_) => span("◐ ", fg(Color::Yellow)),
        ConnectionStatus::Disconnected => span("○ ", fg(Color::Red)),
    }
}

fn draw_words(status: ConnectionStatus) -> (r: Span)
    ensures
        r@ == status_words(status),
{
    match status {
        ConnectionStatus::Connected => span("● 已连接", bold(Color::Green)),
        ConnectionStatus::Reconnecting(_) => span("◐ 重连中…", bold(Color::Yellow)),
        ConnectionStatus::Disconnected => span("○ 已断开", bold(Color::Red)),
    }
}

fn draw_tab(host: &HostSummary, i: usize) -> (line: Vec<Span>)
    requires
        i < usize::MAX,
    ensures
        span_views(line@) == tab_line(host@, i as int),
{
    let mut line = new_line();
    add_span(
        &mut line,
        span_of(write_numbered("[", (i + 1) as u64, "] "), fg(Color::DarkGray)),
    );
    add_span(&mut line, draw_sign(host.status));
    add_span(&mut line, span(host.display_name.as_str(), strong()));
    assert(host@.tunnels.len() == host.tunnels@.len());
    add_span(
        &mut line,
        span_of(write_numbered(" (", host.tunnels.len() as u64, ")"), fg(Color::DarkGray)),
    );
    line
}

fn draw_host_line(host: &HostSummary) -> (line: Vec<Span>)
    ensures
        span_views(line@) == host_line(host@),
{
    let mut line = new_line();
    add_span(&mut line, span(" 当前主机: ", fg(Color::Gray)));
    let shown = write_address(
        host.params.user.as_str(),
        host.params.host.as_str(),
        host.params.ssh_port,
    );
    add_span(&mut line, span_of(shown, bold(Color::White)));
    add_span(&mut line, span("  ·  状态: ", fg(Color::Gray)));
    add_span(&mut line, draw_words(host.status));
    add_span(&mut line, span("  ·  实时速率: ", fg(Color::Gray)));
    let rx = fmt_rate(host.total_rx_rate);
    let tx = fmt_rate(host.total_tx_rate);
    let before = write_quoted("↓ ", rx.as_str(), "  ↑ ");
    add_span(
        &mut line,
        span_of(write_pair(before.as_str(), tx.as_str()), fg(Color::Cyan)),
    );
    line
}

impl App {
    fn draw_frame_style(&self) -> (r: Style)
        ensures
            r == self@.frame_style(),
    {
        match &self.status {
            Some((_, is_error)) => if *is_error {
                bold(Color::Red)
            } else {
                fg(Color::Green)
            },
            None => fg(Color::Cyan),
        }
    }

    fn draw_message(&self, line: &mut Vec<Span>)
        ensures
            span_views(final(line)@) == span_views(old(line)@) + self@.message_spans(),
    {
        if let Some((message, is_error)) = &self.status {
            add_span(line, span("· ", fg(Color::DarkGray)));
            if *is_error {
                add_span(
                    line,
                    span_of(write_quoted("✖ ", message.as_str(), " "), bold(Color::Red)),
                );
            } else {
                add_span(
                    line,
                    span_of(write_quoted("✔ ", message.as_str(), " "), bold(Color::Green)),
                );
            }
        }
        assert(span_views(line@) =~= span_views(old(line)@) + self@.message_spans());
    }

    fn draw_title(&self) -> (line: Vec<Span>)
        ensures
            span_views(line@) == self@.title_spans(),
    {
        let mut line = new_line();
        add_span(&mut line, span(" ⚡ mtui ", bold(Color::Cyan)));
        if self.hosts.len() == 0 {
            add_span(&mut line, span("· 多主机 SSH 动态隧道管理 ", strong()));
            if self.status.is_some() {
                self.draw_message(&mut line);
            } else {
                add_span(&mut line, span("(0 台主机已连接) ", fg(Color::DarkGray)));
            }
        } else {
            add_span(&mut line, span("· 主机列表 ", strong()));
            add_span(
                &mut line,
                span_of(
                    write_numbered(
                        "(",
                        self.hosts.len() as u64,
                        " 台主机 · [1-9/H/L] 快速切换) ",
                    ),
                    fg(Color::DarkGray),
                ),
            );
            self.draw_message(&mut line);
        }
        assert(span_views(line@) =~= self@.title_spans());
        line
    }

    fn draw_tabs(&self) -> (lines: Vec<Vec<Span>>)
        ensures
            line_views(lines@) == self@.tab_lines(),
    {
        let mut lines = no_lines();
        if self.hosts.len() == 0 {
            return lines;
        }
        for i in 0..self.hosts.len()
            invariant
                line_views(lines@) == Seq::new(
                    i as nat,
                    |k: int| tab_line(self@.hosts[k], k),
                ),
        {
            assert(self@.hosts[i as int] == self.hosts@[i as int]@);
            let ghost before = line_views(lines@);
            let line = draw_tab(&self.hosts[i], i);
            add_line(&mut lines, line);
            assert(line_views(lines@) =~= Seq::new(
                (i + 1) as nat,
                |k: int| tab_line(self@.hosts[k], k),
            ));
        }
        let mut last = new_line();
        add_span(&mut last, span(" [+] 新建主机 (n) ", fg(Color::DarkGray)));
        add_line(&mut lines, last);
        assert(line_views(lines@) =~= self@.tab_lines());
        lines
    }
}

// ---------- The tunnels of a host ----------

/// The row of a tunnel. A stopped one has no connections and no rates to show.
pub open spec fn tunnel_row(t: TunnelInfoView) -> RowView {
    RowView {
        cells: seq![
            if t.enabled {
                styled("● 运行中"@, fg_style(Color::Green))
            } else {
                styled("○ 已停用"@, fg_style(Color::DarkGray))
            },
            styled(dec(t.local_port as nat), plain_style()),
            styled(quoted(t.remote_host, ":"@, dec(t.remote_port as nat)), plain_style()),
            styled(
                if t.enabled {
                    dec(t.connections as nat)
                } else {
                    "-"@
                },
                plain_style(),
            ),
            styled(
                if t.enabled {
                    amount(t.rx_rate, "/s"@)
                } else {
                    "-"@
                },
                plain_style(),
            ),
            styled(
                if t.enabled {
                    amount(t.tx_rate, "/s"@)
                } else {
                    "-"@
                },
                plain_style(),
            ),
            styled(amount(t.rx_bytes, ""@), plain_style()),
            styled(amount(t.tx_bytes, ""@), plain_style()),
        ],
        style: if t.enabled {
            plain_style()
        } else {
            fg_style(Color::DarkGray)
        },
    }
}

/// How many tunnels run.
pub open spec fn running_count(tunnels: Seq<TunnelInfoView>) -> nat
    decreases tunnels.len(),
{
    if tunnels.len() == 0 {
        0
    } else {
        running_count(tunnels.drop_last()) + if tunnels.last().enabled {
            1nat
        } else {
            0
        }
    }
}

/// The title above the tunnels of a host.
pub open spec fn list_title(host: HostSummaryView) -> Seq<char> {
    if host.tunnels.len() == 0 {
        quoted(" 隧道列表 ("@, host.display_name, ") "@)
    } else {
        numbered(
            numbered(
                quoted(" 隧道列表 ("@, host.display_name, ") · 共 "@),
                host.tunnels.len(),
                " 条 ("@,
            ),
            running_count(host.tunnels),
            " 运行中) "@,
        )
    }
}

fn draw_tunnel(t: &TunnelInfo) -> (row: TableRow)
    ensures
        row@ == tunnel_row(t@),
{
    let mut cells = new_line();
    let status = if t.enabled {
        span("● 运行中", fg(Color::Green))
    } else {
        span("○ 已停用", fg(Color::DarkGray))
    };
    add_span(&mut cells, status);
    add_span(&mut cells, span_of(decimal(t.local_port as u64), plain()));
    let port = decimal(t.remote_port as u64);
    add_span(
        &mut cells,
        span_of(write_quoted(t.remote_host.as_str(), ":", port.as_str()), plain()),
    );
    if t.enabled {
        add_span(&mut cells, span_of(decimal(t.connections as u64), plain()));
        add_span(&mut cells, span_of(fmt_rate(t.rx_rate), plain()));
        add_span(&mut cells, span_of(fmt_rate(t.tx_rate), plain()));
    } else {
        add_span(&mut cells, span("-", plain()));
        add_span(&mut cells, span("-", plain()));
        add_span(&mut cells, span("-", plain()));
    }
    add_span(&mut cells, span_of(fmt_bytes(t.rx_bytes), plain()));
    add_span(&mut cells, span_of(fmt_bytes(t.tx_bytes), plain()));
    let style = if t.enabled {
        plain()
    } else {
        fg(Color::DarkGray)
    };
    TableRow { cells, style }
}

fn count_running(tunnels: &Vec<TunnelInfo>) -> (n: usize)
    ensures
        n == running_count(info_views(tunnels@)),
{
    let ghost all = info_views(tunnels@);
    let mut n: usize = 0;
    for i in 0..tunnels.len()
        invariant
            all == info_views(tunnels@),
            n <= i,
            n == running_count(all.take(i as int)),
    {
        assert(all[i as int] == tunnels@[i as int]@);
        assert(all.take(i + 1).drop_last() =~= all.take(i as int));
        if tunnels[i].enabled {
            n = n + 1;
        }
    }
    assert(all.take(all.len() as int) =~= all);
    n
}

fn draw_list_title(host: &HostSummary) -> (s: String)
    ensures
        s@ == list_title(host@),
{
    assert(host@.tunnels.len() == host.tunnels@.len());
    if host.tunnels.len() == 0 {
        write_quoted(" 隧道列表 (", host.display_name.as_str(), ") ")
    } else {
        let name = write_quoted(" 隧道列表 (", host.display_name.as_str(), ") · 共 ");
        let all = write_numbered(name.as_str(), host.tunnels.len() as u64, " 条 (");
        write_numbered(all.as_str(), count_running(&host.tunnels) as u64, " 运行中) ")
    }
}

// ---------- Below the hosts ----------

/// What takes up most of the screen.
#[derive(Debug, PartialEq, Eq)]
pub enum Body {
    /// No host is shown: what can be done.
    Welcome(Vec<Vec<Span>>),
    /// The host has no tunnels; title and note.
    NoTunnels(String, String),
    /// The tunnels of the host: title, rows, and which of them is selected.
    Tunnels(String, Vec<TableRow>, usize),
    /// A log: title and messages.
    Log(String, Vec<String>),
}

/// What takes up most of the screen, as a mathematical value.
#[verifier::ext_equal]
pub enum BodyView {
    Welcome(Seq<Seq<SpanView>>),
    NoTunnels(Seq<char>, Seq<char>),
    Tunnels(Seq<char>, Seq<RowView>, usize),
    Log(Seq<char>, Seq<Seq<char>>),
}

impl View for Body {
    type V = BodyView;

    open spec fn view(&self) -> BodyView {
        match self {
            Body::Welcome(lines) => BodyView::Welcome(line_views(lines@)),
            Body::NoTunnels(title, note) => BodyView::NoTunnels(title@, note@),
            Body::Tunnels(title, rows, selected) => BodyView::Tunnels(
                title@,
                row_views(rows@),
                *selected,
            ),
            Body::Log(title, lines) => BodyView::Log(title@, string_views(lines@)),
        }
    }
}

/// What can be done without a host.
pub open spec fn welcome_lines() -> Seq<Seq<SpanView>> {
    seq![
        Seq::<SpanView>::empty(),
        seq![styled("✨ 欢迎使用 mtui 动态 SSH 隧道管理"@, bold_style(Color::Cyan))],
        Seq::<SpanView>::empty(),
        seq![styled("当前未连接任何 SSH 主机。你可以："@, plain_style())],
        seq![
            styled("  • 按 "@, fg_style(Color::DarkGray)),
            styled("[n]"@, bold_style(Color::Yellow)),
            styled(
                " 连接新主机（支持输入 user@host、密码/私钥认证或直接读取 ~/.ssh/config 别名）"@,
                fg_style(Color::Gray),
            ),
        ],
        seq![
            styled("  • 按 "@, fg_style(Color::DarkGray)),
            styled("[q]"@, bold_style(Color::Red)),
            styled(" 退出程序"@, fg_style(Color::Gray)),
        ],
    ]
}

/// The first `n` messages left out.
pub open spec fn messages_from(log: Seq<Seq<char>>, n: usize) -> Seq<Seq<char>> {
    if n < log.len() {
        log.skip(n as int)
    } else {
        Seq::empty()
    }
}

impl AppView {
    /// The tunnel whose log is shown.
    pub open spec fn logged_tunnel(self, port: u16) -> Option<TunnelInfoView> {
        match self.current() {
            Some(host) => tunnel_on(host.tunnels, port),
            None => None,
        }
    }

    /// What takes up most of the screen.
    pub open spec fn body(self) -> BodyView {
        match self.mode {
            Mode::Log { port, scroll } => match self.logged_tunnel(port) {
                Some(t) => BodyView::Log(
                    numbered(
                        " 隧道 "@,
                        port as nat,
                        if t.enabled {
                            " 日志 (运行中) "@
                        } else {
                            " 日志 (已停用) "@
                        },
                    ),
                    messages_from(t.log, scroll),
                ),
                None => BodyView::Log(
                    numbered(" 隧道 "@, port as nat, " 日志 (已停用) "@),
                    Seq::empty(),
                ),
            },
            _ => match self.current() {
                None => BodyView::Welcome(welcome_lines()),
                Some(host) => if host.tunnels.len() == 0 {
                    BodyView::NoTunnels(
                        list_title(host),
                        "  ○ 当前主机暂无隧道 · 按 [a] 新建端口转发或发现远端服务"@,
                    )
                } else {
                    BodyView::Tunnels(
                        list_title(host),
                        Seq::new(host.tunnels.len(), |i: int| tunnel_row(host.tunnels[i])),
                        self.selected_tunnel,
                    )
                },
            },
        }
    }

    /// The line at the bottom: what the keys do.
    pub open spec fn footer(self) -> Seq<char> {
        match self.mode {
            Mode::Log { port, .. } => numbered(
                " [↑/↓]滚动  [g/G]首/尾  [q/Esc]返回    共 "@,
                match self.logged_tunnel(port) {
                    Some(t) => t.log.len(),
                    None => 0,
                },
                " 条"@,
            ),
            _ => " [1-9/H/L]切换主机  [n]连接主机  [x]断开主机  [r]重连  [a]新建隧道  [Space/s]启停  [d]删除  [l]日志  [q]退出"@,
        }
    }
}

fn draw_welcome() -> (lines: Vec<Vec<Span>>)
    ensures
        line_views(lines@) == welcome_lines(),
{
    let mut lines = no_lines();
    add_line(&mut lines, new_line());
    let mut greeting = new_line();
    add_span(&mut greeting, span("✨ 欢迎使用 mtui 动态 SSH 隧道管理", bold(Color::Cyan)));
    add_line(&mut lines, greeting);
    add_line(&mut lines, new_line());
    let mut intro = new_line();
    add_span(&mut intro, span("当前未连接任何 SSH 主机。你可以：", plain()));
    add_line(&mut lines, intro);
    let mut connect = new_line();
    add_span(&mut connect, span("  • 按 ", fg(Color::DarkGray)));
    add_span(&mut connect, span("[n]", bold(Color::Yellow)));
    add_span(
        &mut connect,
        span(
            " 连接新主机（支持输入 user@host、密码/私钥认证或直接读取 ~/.ssh/config 别名）",
            fg(Color::Gray),
        ),
    );
    add_line(&mut lines, connect);
    let mut quit = new_line();
    add_span(&mut quit, span("  • 按 ", fg(Color::DarkGray)));
    add_span(&mut quit, span("[q]", bold(Color::Red)));
    add_span(&mut quit, span(" 退出程序", fg(Color::Gray)));
    add_line(&mut lines, quit);
    assert(line_views(lines@) =~~= welcome_lines());
    lines
}

fn draw_messages(log: &Vec<String>, from: usize) -> (v: Vec<String>)
    ensures
        string_views(v@) == messages_from(string_views(log@), from),
{
    let ghost all = string_views(log@);
    let mut v: Vec<String> = Vec::new();
    assert(string_views(v@) =~= Seq::empty());
    if from >= log.len() {
        return v;
    }
    assert(all.subrange(from as int, from as int) =~= Seq::empty());
    for i in from..log.len()
        invariant
            all == string_views(log@),
            from <= i <= log@.len(),
            string_views(v@) == all.subrange(from as int, i as int),
    {
        let ghost before = v@;
        assert(all[i as int] == log@[i as int]@);
        v.push(log[i].clone());
        assert(string_views(v@) =~= string_views(before).push(all[i as int]));
        assert(all.subrange(from as int, i + 1) =~= all.subrange(from as int, i as int).push(
            all[i as int],
        ));
    }
    assert(all.subrange(from as int, all.len() as int) =~= all.skip(from as int));
    v
}

impl App {
    fn find_logged(&self, port: u16) -> (r: Option<&TunnelInfo>)
        ensures
            match r {
                Some(t) => self@.logged_tunnel(port) == Some(t@),
                None => self@.logged_tunnel(port) is None,
            },
    {
        match self.current_host() {
            Some(host) => find_tunnel(&host.tunnels, port),
            None => None,
        }
    }

    fn draw_log(&self, port: u16, scroll: usize) -> (body: Body)
        requires
            self@.mode == (Mode::Log { port, scroll }),
        ensures
            body@ == self@.body(),
    {
        match self.find_logged(port) {
            Some(t) => {
                let state = if t.enabled {
                    " 日志 (运行中) "
                } else {
                    " 日志 (已停用) "
                };
                Body::Log(
                    write_numbered(" 隧道 ", port as u64, state),
                    draw_messages(&t.log, scroll),
                )
            },
            None => {
                let none: Vec<String> = Vec::new();
                assert(string_views(none@) =~= Seq::empty());
                Body::Log(write_numbered(" 隧道 ", port as u64, " 日志 (已停用) "), none)
            },
        }
    }

    fn draw_tunnels(&self) -> (body: Body)
        requires
            self@.mode !is Log,
        ensures
            body@ == self@.body(),
    {
        match self.current_host() {
            None => Body::Welcome(draw_welcome()),
            Some(host) => {
                assert(host@.tunnels.len() == host.tunnels@.len());
                let title = draw_list_title(host);
                if host.tunnels.len() == 0 {
                    return Body::NoTunnels(
                        title,
                        "  ○ 当前主机暂无隧道 · 按 [a] 新建端口转发或发现远端服务".to_string(),
                    );
                }
                let mut rows: Vec<TableRow> = Vec::new();
                for i in 0..host.tunnels.len()
                    invariant
                        rows@.len() == i,
                        forall|k: int|
                            0 <= k < i ==> #[trigger] rows@[k]@ == tunnel_row(host@.tunnels[k]),
                {
                    assert(host@.tunnels[i as int] == host.tunnels@[i as int]@);
                    rows.push(draw_tunnel(&host.tunnels[i]));
                }
                assert(row_views(rows@) =~= Seq::new(
                    host@.tunnels.len(),
                    |i: int| tunnel_row(host@.tunnels[i]),
                ));
                Body::Tunnels(title, rows, self.selected_tunnel)
            },
        }
    }

    fn draw_footer(&self) -> (s: String)
        ensures
            s@ == self@.footer(),
    {
        match self.mode {
            Mode::Log { port, .. } => {
                let n: usize = match self.find_logged(port) {
                    Some(t) => {
                        assert(t@.log.len() == t.log@.len());
                        t.log.len()
                    },
                    None => 0,
                };
                write_numbered(
                    " [↑/↓]滚动  [g/G]首/尾  [q/Esc]返回    共 ",
                    n as u64,
                    " 条",
                )
            },
            _ => {
                " [1-9/H/L]切换主机  [n]连接主机  [x]断开主机  [r]重连  [a]新建隧道  [Space/s]启停  [d]删除  [l]日志  [q]退出".to_string()
            },
        }
    }
}

// ---------- All of it ----------

/// What stands on the screen behind the forms.
#[derive(Debug, PartialEq, Eq)]
pub struct Backdrop {
    pub frame: Style,
    pub title: Vec<Span>,
    /// No tabs without hosts.
    pub tabs: Vec<Vec<Span>>,
    pub active_tab: usize,
    pub host_line: Option<Vec<Span>>,
    pub body: Body,
    pub footer: String,
}

/// What stands on the screen behind the forms, as a mathematical value.
#[verifier::ext_equal]
pub struct BackdropView {
    pub frame: Style,
    pub title: Seq<SpanView>,
    pub tabs: Seq<Seq<SpanView>>,
    pub active_tab: usize,
    pub host_line: Option<Seq<SpanView>>,
    pub body: BodyView,
    pub footer: Seq<char>,
}

impl View for Backdrop {
    type V = BackdropView;

    open spec fn view(&self) -> BackdropView {
        BackdropView {
            frame: self.frame,
            title: span_views(self.title@),
            tabs: line_views(self.tabs@),
            active_tab: self.active_tab,
            host_line: match self.host_line {
                Some(line) => Some(span_views(line@)),
                None => None,
            },
            body: self.body@,
            footer: self.footer@,
        }
    }
}

impl AppView {
    /// What stands on the screen behind the forms.
    pub open spec fn backdrop(self) -> BackdropView {
        BackdropView {
            frame: self.frame_style(),
            title: self.title_spans(),
            tabs: self.tab_lines(),
            active_tab: self.active_host,
            host_line: match self.current() {
                Some(host) => Some(host_line(host)),
                None => None,
            },
            body: self.body(),
            footer: self.footer(),
        }
    }
}

impl App {
    /// What stands on the screen behind the forms.
    pub fn draw_backdrop(&self) -> (b: Backdrop)
        ensures
            b@ == self@.backdrop(),
    {
        let line = match self.current_host() {
            Some(host) => Some(draw_host_line(host)),
            None => None,
        };
        let body = match self.mode {
            Mode::Log { port, scroll } => self.draw_log(port, scroll),
            _ => self.draw_tunnels(),
        };
        Backdrop {
            frame: self.draw_frame_style(),
            title: self.draw_title(),
            tabs: self.draw_tabs(),
            active_tab: self.active_host,
            host_line: line,
            body,
            footer: self.draw_footer(),
        }
    }
}

} // verus!
