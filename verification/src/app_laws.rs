//! What holds of the screen whatever keys and news come.

use vstd::arithmetic::div_mod::lemma_mod_bound;
use vstd::prelude::*;
use vstd::utf8::encode_utf8;

use crate::app::initial;
use crate::app::AppView;
use crate::app::Ask;
use crate::app::KeyPress;
use crate::app::Mode;
use crate::app::REPLY_TIMEOUT_NANOS;
use crate::commands::CommandView;
use crate::forms::empty_connect_form;
use crate::forms::lemma_filled_form_parses;
use crate::forms::ConnectFocus;
use crate::forms::FormConnectView;
use crate::forms::FormTunnelFocus;
use crate::forms::Key;
use crate::paths::EnvironmentView;
use crate::popups::dots;
use crate::popups::names_host;
use crate::ports::RemotePortView;
use crate::screen::host_line;
use crate::screen::tab_line;
use crate::summary::HostSummaryView;
use crate::target::ConnectParamsView;
use crate::target::SshConfigHostView;
use crate::text::trim;
use crate::text::unsigned;

verus! {

// ---------- Selections ----------

/// What is selected in a list is in it, or the first place where nothing is.
pub open spec fn in_list(selected: usize, len: nat) -> bool {
    selected == 0 || selected < len
}

/// Everything that is selected is there, and the list of known hosts has the focus only where
/// there is anything in it.
pub open spec fn selections_valid(app: AppView) -> bool {
    &&& in_list(app.active_host, app.hosts.len())
    &&& match app.current() {
        Some(host) => in_list(app.selected_tunnel, host.tunnels.len()),
        None => app.selected_tunnel == 0,
    }
    &&& in_list(app.form_connect.config_selected, app.form_connect.config_hosts.len())
    &&& app.form_connect.focus == ConnectFocus::ConfigList ==> app.form_connect.lists()
    &&& in_list(app.ports_selected, app.remote_ports.len())
}

/// Every list has a length that a machine can count.
pub open spec fn lists_fit(app: AppView) -> bool {
    &&& app.hosts.len() <= usize::MAX
    &&& app.form_connect.config_hosts.len() <= usize::MAX
    &&& app.remote_ports.len() <= usize::MAX
    &&& match app.current() {
        Some(host) => host.tunnels.len() <= usize::MAX,
        None => true,
    }
}

/// Everything that is selected when the program starts is there.
pub proof fn lemma_selections_begin(config_hosts: Seq<SshConfigHostView>)
    ensures
        selections_valid(initial(config_hosts)),
{
}

/// Moving in a circle stays within it.
proof fn lemma_selecting_valid(app: AppView, delta: int)
    requires
        selections_valid(app),
    ensures
        selections_valid(app.selecting(delta)),
{
    if let Some(host) = app.current() {
        if host.tunnels.len() > 0 {
            lemma_mod_bound(app.selected_tunnel + delta, host.tunnels.len() as int);
        }
    }
}

proof fn lemma_list_key_valid(app: AppView, key: Key, control: bool, now: i64)
    requires
        selections_valid(app),
        lists_fit(app),
    ensures
        selections_valid(app.list_key(key, control, now).0),
{
    lemma_selecting_valid(app, 1);
    lemma_selecting_valid(app, -1);
}

proof fn lemma_connect_key_valid(app: AppView, key: Key, env: EnvironmentView, now: i64)
    requires
        selections_valid(app),
        lists_fit(app),
    ensures
        selections_valid(app.connect_key(key, env, now).0),
{
}

proof fn lemma_tunnel_key_valid(app: AppView, key: Key, now: i64)
    requires
        selections_valid(app),
        lists_fit(app),
    ensures
        selections_valid(app.tunnel_key(key, now).0),
{
}

/// No key leaves anything selected that is not there.
pub proof fn lemma_key_keeps_selections(
    app: AppView,
    press: KeyPress,
    env: EnvironmentView,
    now: i64,
)
    requires
        selections_valid(app),
        lists_fit(app),
    ensures
        selections_valid(app.after_key(press, env, now).0),
{
    if press.pressed {
        match app.mode {
            Mode::List => {
                lemma_list_key_valid(app, press.key, press.control, now);
            },
            Mode::ConnectHost => {
                lemma_connect_key_valid(app, press.key, env, now);
            },
            Mode::InputTunnel => {
                lemma_tunnel_key_valid(app, press.key, now);
            },
            Mode::Log { port, scroll } => {
                let after = app.log_key(port, scroll, press.key);
                assert(after.current() == app.current());
            },
        }
    }
}

/// No news, and nothing that was found out, leaves anything selected that is not there.
pub proof fn lemma_news_keeps_selections(
    app: AppView,
    hosts: Seq<HostSummaryView>,
    ports: Seq<RemotePortView>,
    reply: Option<Result<(), Seq<char>>>,
    meaning: Result<ConnectParamsView, Seq<char>>,
    config_hosts: Seq<SshConfigHostView>,
    port: u16,
    local: u16,
    now: i64,
)
    requires
        selections_valid(app),
        hosts.len() <= usize::MAX,
        ports.len() <= usize::MAX,
        forall|i: int| 0 <= i < hosts.len() ==> (#[trigger] hosts[i]).tunnels.len() <= usize::MAX,
    ensures
        selections_valid(app.with_hosts(hosts)),
        selections_valid(app.with_ports(ports)),
        selections_valid(app.with_reply(reply, now)),
        selections_valid(app.submitting(meaning, now)),
        selections_valid(app.filling_from_port(port, local)),
        selections_valid(app.adding_from_port(port, local, now)),
        selections_valid(
            AppView {
                form_connect: empty_connect_form(config_hosts),
                ..app.silent().showing(Mode::ConnectHost)
            },
        ),
{
}

/// One step down and one step up the list of tunnels lead back, and so do one up and one
/// down.
pub proof fn lemma_selecting_back(app: AppView)
    requires
        app.selected() is Some,
        app.current()->0.tunnels.len() <= usize::MAX,
    ensures
        app.selecting(1).selecting(-1) == app,
        app.selecting(-1).selecting(1) == app,
{
    let len = app.current()->0.tunnels.len() as int;
    let i = app.selected_tunnel as int;
    assert((i + 1) % len == if i + 1 < len {
        i + 1
    } else {
        0
    }) by (nonlinear_arith)
        requires
            0 <= i < len,
    ;
    assert((i - 1) % len == if i > 0 {
        i - 1
    } else {
        len - 1
    }) by (nonlinear_arith)
        requires
            0 <= i < len,
    ;
    assert((len - 1 + 1) % len == 0) by (nonlinear_arith)
        requires
            0 < len,
    ;
    assert((0 - 1) % len == len - 1) by (nonlinear_arith)
        requires
            0 < len,
    ;
    if i + 1 < len {
        assert((i + 1 - 1) % len == i) by (nonlinear_arith)
            requires
                0 <= i < len,
        ;
    }
    if i > 0 {
        assert((i - 1 + 1) % len == i) by (nonlinear_arith)
            requires
                0 <= i < len,
        ;
    }
}

// ---------- Focus ----------

/// In the form for a host the keys Tab and Shift-Tab undo each other.
pub proof fn lemma_host_form_tabs(form: FormConnectView)
    requires
        form.focus == ConnectFocus::ConfigList ==> form.lists(),
    ensures
        form.after_key(Key::Tab).after_key(Key::BackTab) == form,
        form.after_key(Key::BackTab).after_key(Key::Tab) == form,
{
}

/// In the form for a tunnel the keys Tab and Shift-Tab undo each other, but for the focus on
/// an empty list, which is left for good.
pub proof fn lemma_tunnel_form_tabs(app: AppView, now: i64)
    requires
        app.form_tunnel.focus == FormTunnelFocus::RemoteList ==> app.has_ports(),
    ensures
        app.tunnel_key(Key::Tab, now).0.tunnel_key(Key::BackTab, now).0 == app,
        app.tunnel_key(Key::BackTab, now).0.tunnel_key(Key::Tab, now).0 == app,
{
}

/// What is typed into a field is taken back by Backspace.
pub proof fn lemma_typed_is_erased(form: FormConnectView, c: char)
    requires
        form.focus == ConnectFocus::Target || form.focus == ConnectFocus::AuthSecret,
        c != ' ',
    ensures
        form.after_key(Key::Char(c)).after_key(Key::Backspace) == form,
{
    assert(form.target.push(c).drop_last() =~= form.target);
    assert(form.key_path.push(c).drop_last() =~= form.key_path);
    assert(form.password.push(c).drop_last() =~= form.password);
}

// ---------- Leaving and requesting ----------

/// Esc leads back to the list from everywhere else, and asks for nothing.
pub proof fn lemma_esc_leads_back(app: AppView, press: KeyPress, env: EnvironmentView, now: i64)
    requires
        press.pressed,
        press.key == Key::Esc,
        app.mode !is List,
    ensures
        app.after_key(press, env, now).0.mode == Mode::List,
        app.after_key(press, env, now).0.pending_cmds == app.pending_cmds,
        app.after_key(press, env, now).0.quit == app.quit,
        app.after_key(press, env, now).1 == Ask::Nothing,
{
}

/// A key makes one request at most, behind those that were made before, and where it has to
/// find something out first, it has not changed anything.
pub proof fn lemma_key_requests_once(app: AppView, press: KeyPress, env: EnvironmentView, now: i64)
    ensures
        ({
            let (after, ask) = app.after_key(press, env, now);
            &&& after.pending_cmds == app.pending_cmds || exists|c: CommandView|
                after.pending_cmds == #[trigger] app.pending_cmds.push(c)
            &&& ask != Ask::Nothing ==> after == app
        }),
{
}

/// The program is left from the list of tunnels alone, and with the keys for that.
pub proof fn lemma_quit_from_list_only(
    app: AppView,
    press: KeyPress,
    env: EnvironmentView,
    now: i64,
)
    requires
        !app.quit,
        app.after_key(press, env, now).0.quit,
    ensures
        app.mode is List,
        press.key == Key::Char('q') || press.key == Key::Esc || (press.key == Key::Char('c')
            && press.control),
{
}

/// A form that was filled in from a remote port, submitted as it is, asks for the tunnel from
/// the free local port to that port.
pub proof fn lemma_fill_then_enter(app: AppView, port: u16, local: u16, now: i64)
    ensures
        ({
            let (after, ask) = app.filling_from_port(port, local).tunnel_key(Key::Enter, now);
            &&& ask == Ask::Nothing
            &&& after.pending_cmds == app.pending_cmds.push(
                CommandView::AddTunnel {
                    session_id: app.form_tunnel.session_id,
                    local_port: local,
                    remote_host: "localhost"@,
                    remote_port: port as u32,
                },
            )
            &&& after.mode == Mode::List
        }),
{
    let filled = app.filling_from_port(port, local);
    lemma_filled_form_parses(filled.form_tunnel, local, port);
    assert(unsigned(trim(filled.form_tunnel.local_port), u16::MAX as nat) is Some);
}

/// An answer that is waited for is waited for no longer than the time allowed.
pub proof fn lemma_reply_times_out(
    app: AppView,
    reply: Option<Result<(), Seq<char>>>,
    started: i64,
    now: i64,
)
    requires
        app.pending_reply == Some(started),
        now - started > REPLY_TIMEOUT_NANOS,
    ensures
        app.with_reply(reply, now).pending_reply is None,
        app.with_reply(reply, now).status is Some,
{
}

// ---------- Passwords ----------

/// Whether two hosts are the same but for how they are logged in to.
pub open spec fn same_but_login(a: HostSummaryView, b: HostSummaryView) -> bool {
    b == HostSummaryView {
        params: ConnectParamsView { auth: b.params.auth, ..a.params },
        ..a
    }
}

/// Whether two states of the screen are the same but for passwords: the one in the form, which
/// has as many bytes in both, those that hosts are logged in to with, and those in requests
/// that wait.
pub open spec fn same_but_passwords(a: AppView, b: AppView) -> bool {
    &&& b == AppView {
        form_connect: b.form_connect,
        hosts: b.hosts,
        pending_cmds: b.pending_cmds,
        ..a
    }
    &&& b.form_connect == FormConnectView { password: b.form_connect.password, ..a.form_connect }
    &&& encode_utf8(b.form_connect.password).len() == encode_utf8(a.form_connect.password).len()
    &&& b.hosts.len() == a.hosts.len()
    &&& forall|i: int| 0 <= i < a.hosts.len() ==> same_but_login(a.hosts[i], #[trigger] b.hosts[i])
}

/// Of passwords nothing is shown but how many bytes the one in the form has.
pub proof fn lemma_password_hidden(a: AppView, b: AppView)
    requires
        same_but_passwords(a, b),
    ensures
        a.popup() == b.popup(),
        a.backdrop() == b.backdrop(),
{
    assert(dots(a.form_connect.password) =~= dots(b.form_connect.password));
    assert(a.form_connect.secret_line() =~= b.form_connect.secret_line());
    assert forall|name: Seq<char>| #[trigger] names_host(a.hosts, name) == names_host(
        b.hosts,
        name,
    ) by {
        if names_host(a.hosts, name) {
            let i = choose|i: int| 0 <= i < a.hosts.len() && (#[trigger] a.hosts[i]).id == name;
            assert(same_but_login(a.hosts[i], b.hosts[i]));
        }
        if names_host(b.hosts, name) {
            let i = choose|i: int| 0 <= i < b.hosts.len() && (#[trigger] b.hosts[i]).id == name;
            assert(same_but_login(a.hosts[i], b.hosts[i]));
        }
    }
    let n = a.form_connect.config_hosts.len();
    assert forall|i: int| 0 <= i < n implies #[trigger] a.form_connect.host_row(a.hosts, i)
        == b.form_connect.host_row(b.hosts, i) by {}
    assert(Seq::new(n, |i: int| a.form_connect.host_row(a.hosts, i)) =~= Seq::new(
        n,
        |i: int| b.form_connect.host_row(b.hosts, i),
    ));
    assert(a.popup() == b.popup());
    assert forall|i: int| 0 <= i < a.hosts.len() implies #[trigger] tab_line(a.hosts[i], i)
        == tab_line(b.hosts[i], i) by {
        assert(same_but_login(a.hosts[i], b.hosts[i]));
    }
    assert(a.tab_lines() =~= b.tab_lines());
    if a.active_host < a.hosts.len() {
        let k = a.active_host as int;
        assert(same_but_login(a.hosts[k], b.hosts[k]));
        assert(host_line(a.hosts[k]) == host_line(b.hosts[k]));
    }
    assert(a.body() == b.body());
    assert(a.footer() == b.footer());
    assert(a.title_spans() == b.title_spans());
}

} // verus!
