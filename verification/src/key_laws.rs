//! What each key does, and what forms, answers and news lead to.

use vstd::prelude::*;
use vstd::utf8::encode_utf8;

use crate::app::initial;
use crate::app::tunnel_on;
use crate::app::AppView;
use crate::app::Ask;
use crate::app::KeyPress;
use crate::app::Mode;
use crate::commands::CommandView;
use crate::forms::empty_connect_form;
use crate::forms::remote_end;
use crate::forms::AuthType;
use crate::forms::ConnectFocus;
use crate::forms::FormConnectView;
use crate::forms::FormTunnelFocus;
use crate::forms::FormTunnelView;
use crate::forms::Key;
use crate::paths::plain_path;
use crate::paths::EnvironmentView;
use crate::ports::RemotePortView;
use crate::summary::HostSummaryView;
use crate::target::AuthView;
use crate::target::ConnectParamsView;
use crate::target::SshConfigHostView;
use crate::text::all_digits;
use crate::text::dec;
use crate::text::is_digit;
use crate::text::is_white;
use crate::text::lemma_find;
use crate::text::trim;
use crate::text::unsigned;
use crate::text::value;
use crate::text_laws::all_white;
use crate::text_laws::lemma_trim;
use crate::text_laws::lemma_unsigned;
use crate::tunnel::TunnelInfoView;

verus! {

/// Whether a request was made, and nothing else: it stands behind the others, its answer is
/// waited for from now on, and a message says what is asked for.
pub open spec fn asked(
    before: AppView,
    after: AppView,
    command: CommandView,
    now: i64,
    message: Seq<char>,
) -> bool {
    after == AppView {
        pending_cmds: before.pending_cmds.push(command),
        pending_reply: Some(now),
        status: Some((message, false)),
        ..before
    }
}

/// A key that goes down.
pub open spec fn pressing(key: Key, control: bool) -> KeyPress {
    KeyPress { key, control, pressed: true }
}

// ---------- The list of tunnels ----------

/// In the list, keys go from host to host: one back, one on, or right to one of the first
/// nine; the first tunnel of the host is selected then.
pub proof fn lemma_keys_to_hosts(app: AppView, control: bool, env: EnvironmentView, now: i64, n: int)
    requires
        app.mode is List,
        app.active_host < usize::MAX,
        0 <= n < 9,
    ensures
        ({
            let then = |key: Key| app.after_key(pressing(key, control), env, now);
            let at = |i: int| AppView { active_host: i as usize, selected_tunnel: 0, ..app };
            let back = if app.hosts.len() == 0 {
                app
            } else if app.active_host > 0 {
                at(app.active_host - 1)
            } else {
                at(0)
            };
            let on = if app.active_host + 1 < app.hosts.len() {
                at(app.active_host + 1)
            } else {
                app
            };
            let digit = ('1' as int + n) as char;
            &&& then(Key::Left) == (back, Ask::Nothing)
            &&& then(Key::Char('H')) == (back, Ask::Nothing)
            &&& then(Key::Char('[')) == (back, Ask::Nothing)
            &&& then(Key::Right) == (on, Ask::Nothing)
            &&& then(Key::Char('L')) == (on, Ask::Nothing)
            &&& then(Key::Char(']')) == (on, Ask::Nothing)
            &&& n < app.hosts.len() ==> then(Key::Char(digit)) == (at(n), Ask::Nothing)
            &&& n >= app.hosts.len() ==> then(Key::Char(digit)) == (app, Ask::Nothing)
        }),
{
}

/// In the list, keys go from tunnel to tunnel of the host that is shown, in a circle, and to
/// the log of the one that is selected.
pub proof fn lemma_keys_to_tunnels(app: AppView, control: bool, env: EnvironmentView, now: i64)
    requires
        app.mode is List,
        app.active_host < app.hosts.len(),
        app.selected_tunnel < app.hosts[app.active_host as int].tunnels.len() <= usize::MAX,
    ensures
        ({
            let then = |key: Key| app.after_key(pressing(key, control), env, now);
            let tunnels = app.hosts[app.active_host as int].tunnels;
            let i = app.selected_tunnel as int;
            let down = AppView {
                selected_tunnel: (if i + 1 < tunnels.len() {
                    i + 1
                } else {
                    0
                }) as usize,
                ..app
            };
            let up = AppView {
                selected_tunnel: (if i > 0 {
                    i - 1
                } else {
                    tunnels.len() - 1
                }) as usize,
                ..app
            };
            &&& then(Key::Down) == (down, Ask::Nothing)
            &&& then(Key::Char('j')) == (down, Ask::Nothing)
            &&& then(Key::Up) == (up, Ask::Nothing)
            &&& then(Key::Char('k')) == (up, Ask::Nothing)
            &&& then(Key::Char('l')) == (
                AppView {
                    mode: Mode::Log { port: tunnels[i].local_port, scroll: 0 },
                    status: None,
                    ..app
                },
                Ask::Nothing,
            )
        }),
{
    let tunnels = app.hosts[app.active_host as int].tunnels;
    let i = app.selected_tunnel as int;
    let len = tunnels.len() as int;
    assert((i + 1) % len == if i + 1 < len {
        i + 1
    } else {
        0
    }) by (nonlinear_arith)
        requires
            0 <= i < len,
    ;
    assert((i - 1) % len == if i > 0 {
        i - 1
    } else {
        len - 1
    }) by (nonlinear_arith)
        requires
            0 <= i < len,
    ;
}

/// In the list, keys ask for what they are for, of the host that is shown and of the tunnel
/// that is selected there: to let the host go, to connect it anew, to remove the tunnel, and
/// to stop it where it runs or start it where it does not.
pub proof fn lemma_keys_that_ask(app: AppView, control: bool, env: EnvironmentView, now: i64)
    requires
        app.mode is List,
        app.active_host < app.hosts.len(),
        app.selected_tunnel < app.hosts[app.active_host as int].tunnels.len(),
    ensures
        ({
            let then = |key: Key| app.after_key(pressing(key, control), env, now).0;
            let host = app.hosts[app.active_host as int];
            let t = host.tunnels[app.selected_tunnel as int];
            let id = host.id;
            let number = dec(t.local_port as nat);
            let leave = CommandView::DisconnectHost { session_id: id };
            let anew = CommandView::ReconnectHost { session_id: id };
            let remove = CommandView::RemoveTunnel { session_id: id, local_port: t.local_port };
            let stop = CommandView::DisableTunnel { session_id: id, local_port: t.local_port };
            let start = CommandView::EnableTunnel { session_id: id, local_port: t.local_port };
            let leaving = "正在断开主机 ["@ + id + "]…"@;
            let removing = "正在删除主机 ["@ + id + "] 的隧道 "@ + number + "…"@;
            let stopping = "正在停用主机 ["@ + id + "] 的隧道 "@ + number + "…"@;
            let starting = "正在启用主机 ["@ + id + "] 的隧道 "@ + number + "…"@;
            let flipped = |after: AppView|
                if t.enabled {
                    asked(app, after, stop, now, stopping)
                } else {
                    asked(app, after, start, now, starting)
                };
            &&& asked(app, then(Key::Char('x')), leave, now, leaving)
            &&& asked(app, then(Key::Char('X')), leave, now, leaving)
            &&& asked(app, then(Key::Char('r')), anew, now, "正在重连主机..."@)
            &&& asked(app, then(Key::Char('R')), anew, now, "正在重连主机..."@)
            &&& asked(app, then(Key::Char('d')), remove, now, removing)
            &&& asked(app, then(Key::Delete), remove, now, removing)
            &&& flipped(then(Key::Char(' ')))
            &&& flipped(then(Key::Char('s')))
            &&& flipped(then(Key::Char('S')))
        }),
{
}

/// In the list, keys open the forms: for a host, with what the SSH configuration lists, and
/// for a tunnel of the host that is shown, whose ports are looked for meanwhile. Without a
/// host to add a tunnel to, the form for a host is opened instead.
pub proof fn lemma_keys_to_forms(app: AppView, control: bool, env: EnvironmentView, now: i64)
    requires
        app.mode is List,
    ensures
        ({
            let then = |key: Key| app.after_key(pressing(key, control), env, now);
            let id = app.hosts[app.active_host as int].id;
            let opened = |focus: FormTunnelFocus|
                AppView {
                    mode: Mode::InputTunnel,
                    form_tunnel: FormTunnelView {
                        session_id: id,
                        focus,
                        local_port: Seq::empty(),
                        remote: Seq::empty(),
                    },
                    remote_ports: Seq::empty(),
                    ports_selected: 0,
                    status: None,
                    pending_cmds: app.pending_cmds.push(CommandView::ScanPorts { session_id: id }),
                    pending_scan: Some(id),
                    ..app
                };
            let none = app.active_host >= app.hosts.len();
            &&& then(Key::Char('n')) == (app, Ask::KnownHosts)
            &&& then(Key::Char('N')) == (app, Ask::KnownHosts)
            &&& none ==> then(Key::Char('a')) == (app, Ask::KnownHosts)
            &&& none ==> then(Key::Char('p')) == (app, Ask::KnownHosts)
            &&& !none ==> then(Key::Char('a')) == (
                opened(FormTunnelFocus::LocalPort),
                Ask::Nothing,
            )
            &&& !none ==> then(Key::Char('p')) == (
                opened(FormTunnelFocus::RemoteList),
                Ask::Nothing,
            )
        }),
{
}

/// In the list, the program is left with `q`, Esc or Ctrl-C; and a key that is let go of, or
/// held, does nothing anywhere.
pub proof fn lemma_keys_to_leave(
    app: AppView,
    key: Key,
    control: bool,
    env: EnvironmentView,
    now: i64,
)
    ensures
        app.mode is List && (key == Key::Char('q') || key == Key::Esc || (key == Key::Char('c')
            && control)) ==> app.after_key(pressing(key, control), env, now) == (
            AppView { quit: true, ..app },
            Ask::Nothing,
        ),
        app.after_key(KeyPress { key, control, pressed: false }, env, now) == (app, Ask::Nothing),
{
}

// ---------- The log ----------

/// In the log, keys move by one message, or to the first or the last one, and never beyond;
/// `q` and Esc lead back.
pub proof fn lemma_keys_in_log(
    app: AppView,
    port: u16,
    scroll: usize,
    control: bool,
    env: EnvironmentView,
    now: i64,
    k: int,
)
    requires
        app.mode == (Mode::Log { port, scroll }),
        app.active_host < app.hosts.len(),
        ({
            let tunnels = app.hosts[app.active_host as int].tunnels;
            &&& 0 <= k < tunnels.len()
            &&& tunnels[k].local_port == port
            &&& forall|j: int| 0 <= j < k ==> (#[trigger] tunnels[j]).local_port != port
            &&& 0 < tunnels[k].log.len() <= usize::MAX
        }),
    ensures
        ({
            let then = |key: Key| app.after_key(pressing(key, control), env, now);
            let at = |n: int|
                (AppView { mode: Mode::Log { port, scroll: n as usize }, ..app }, Ask::Nothing);
            let last = app.hosts[app.active_host as int].tunnels[k].log.len() - 1;
            let down = if scroll < last {
                scroll + 1
            } else {
                last
            };
            let up = if scroll > 0 {
                scroll - 1
            } else {
                0
            };
            let left = (AppView { mode: Mode::List, ..app }, Ask::Nothing);
            &&& then(Key::Down) == at(down)
            &&& then(Key::Char('j')) == at(down)
            &&& then(Key::Up) == at(up)
            &&& then(Key::Char('k')) == at(up)
            &&& then(Key::Char('g')) == at(0)
            &&& then(Key::Char('G')) == at(last)
            &&& then(Key::Char('q')) == left
            &&& then(Key::Esc) == left
        }),
{
    lemma_tunnel_on(app.hosts[app.active_host as int].tunnels, port, k);
}

/// The tunnel on a port is the first of them.
pub proof fn lemma_tunnel_on(tunnels: Seq<TunnelInfoView>, port: u16, k: int)
    requires
        0 <= k < tunnels.len(),
        tunnels[k].local_port == port,
        forall|j: int| 0 <= j < k ==> (#[trigger] tunnels[j]).local_port != port,
    ensures
        tunnel_on(tunnels, port) == Some(tunnels[k]),
    decreases k,
{
    if k > 0 {
        assert(tunnels[0].local_port != port);
        let rest = tunnels.drop_first();
        assert forall|j: int| 0 <= j < k - 1 implies (#[trigger] rest[j]).local_port != port by {
            assert(rest[j] == tunnels[j + 1]);
        }
        lemma_tunnel_on(rest, port, k - 1);
    }
}

// ---------- The form for a host ----------

/// A character that is typed goes to the end of the field with the focus, and Backspace takes
/// the last one away: the target, the password, or the key file, into which no blank goes.
pub proof fn lemma_typing_host(form: FormConnectView, c: char)
    ensures
        ({
            let typed = form.after_key(Key::Char(c));
            let erased = form.after_key(Key::Backspace);
            let target = form.focus == ConnectFocus::Target;
            let secret = form.focus == ConnectFocus::AuthSecret;
            let password = secret && form.auth_type == AuthType::Password;
            let key = secret && form.auth_type == AuthType::KeyFile;
            &&& target ==> typed == FormConnectView { target: form.target.push(c), ..form }
            &&& password ==> typed == FormConnectView { password: form.password.push(c), ..form }
            &&& key && c != ' ' ==> typed == FormConnectView {
                key_path: form.key_path.push(c),
                ..form
            }
            &&& key && c == ' ' ==> typed == form
            &&& target && form.target.len() > 0 ==> erased == FormConnectView {
                target: form.target.drop_last(),
                ..form
            }
            &&& password && form.password.len() > 0 ==> erased == FormConnectView {
                password: form.password.drop_last(),
                ..form
            }
            &&& key && form.key_path.len() > 0 ==> erased == FormConnectView {
                key_path: form.key_path.drop_last(),
                ..form
            }
        }),
{
}

/// The way to log in is flipped with the blank and the arrows, or chosen by its number or
/// letter, where the choice has the focus.
pub proof fn lemma_choosing_login(form: FormConnectView)
    requires
        form.focus == ConnectFocus::AuthTypeToggle,
    ensures
        ({
            let with = |auth_type: AuthType| FormConnectView { auth_type, ..form };
            let other = if form.auth_type == AuthType::KeyFile {
                AuthType::Password
            } else {
                AuthType::KeyFile
            };
            &&& form.after_key(Key::Char(' ')) == with(other)
            &&& form.after_key(Key::Left) == with(other)
            &&& form.after_key(Key::Right) == with(other)
            &&& form.after_key(Key::Char('1')) == with(AuthType::KeyFile)
            &&& form.after_key(Key::Char('k')) == with(AuthType::KeyFile)
            &&& form.after_key(Key::Char('K')) == with(AuthType::KeyFile)
            &&& form.after_key(Key::Char('2')) == with(AuthType::Password)
            &&& form.after_key(Key::Char('p')) == with(AuthType::Password)
            &&& form.after_key(Key::Char('P')) == with(AuthType::Password)
        }),
{
}

/// The focus goes from the target to the choice of the login, to the key or the password, to
/// the listed hosts where there are any, and back to the target.
pub proof fn lemma_host_form_circle(form: FormConnectView)
    ensures
        ({
            let at = |focus: ConnectFocus| FormConnectView { focus, ..form };
            let lists = form.config_hosts.len() > 0;
            let tab = form.after_key(Key::Tab);
            let down = form.after_key(Key::Down);
            let up = form.after_key(Key::Up);
            &&& form.focus == ConnectFocus::Target ==> tab == at(ConnectFocus::AuthTypeToggle)
                && down == tab && up == form
            &&& form.focus == ConnectFocus::AuthTypeToggle ==> tab == at(ConnectFocus::AuthSecret)
                && down == tab && up == at(ConnectFocus::Target)
            &&& form.focus == ConnectFocus::AuthSecret && lists ==> tab == at(
                ConnectFocus::ConfigList,
            ) && down == tab && up == at(ConnectFocus::AuthTypeToggle)
            &&& form.focus == ConnectFocus::AuthSecret && !lists ==> tab == at(
                ConnectFocus::Target,
            ) && down == form && up == at(ConnectFocus::AuthTypeToggle)
            &&& form.focus == ConnectFocus::ConfigList ==> tab == at(ConnectFocus::Target)
        }),
{
}

/// In the list of known hosts, keys move the selection by one, out of the list above its first
/// entry and not beyond its last one; the blank takes the name of the selected host into the
/// target, to be logged in to with a key.
pub proof fn lemma_in_known_hosts(form: FormConnectView)
    requires
        form.focus == ConnectFocus::ConfigList,
        form.config_selected < form.config_hosts.len() <= usize::MAX,
    ensures
        ({
            let i = form.config_selected as int;
            let at = |n: int| FormConnectView { config_selected: n as usize, ..form };
            let down = if i + 1 < form.config_hosts.len() {
                at(i + 1)
            } else {
                form
            };
            let up = if i > 0 {
                at(i - 1)
            } else {
                FormConnectView { focus: ConnectFocus::AuthSecret, ..form }
            };
            &&& form.after_key(Key::Down) == down
            &&& form.after_key(Key::Char('j')) == down
            &&& form.after_key(Key::Up) == up
            &&& form.after_key(Key::Char('k')) == up
            &&& form.after_key(Key::Char(' ')) == FormConnectView {
                target: form.config_hosts[i].alias,
                auth_type: AuthType::KeyFile,
                focus: ConnectFocus::Target,
                ..form
            }
        }),
{
}

/// Keys in the form for a host reach the form alone. Esc leads back to the list; Enter asks
/// what the target means, or, in the list of known hosts, asks to connect the selected one
/// with what is listed of it.
pub proof fn lemma_host_form_keys(
    app: AppView,
    key: Key,
    control: bool,
    env: EnvironmentView,
    now: i64,
)
    requires
        app.mode is ConnectHost,
    ensures
        ({
            let then = app.after_key(pressing(key, control), env, now);
            let form = app.form_connect;
            let listed = form.focus == ConnectFocus::ConfigList;
            let i = form.config_selected as int;
            &&& key != Key::Esc && key != Key::Enter ==> then == (
                AppView { form_connect: form.after_key(key), ..app },
                Ask::Nothing,
            )
            &&& key == Key::Esc ==> then == (
                AppView { mode: Mode::List, status: None, ..app },
                Ask::Nothing,
            )
            &&& key == Key::Enter && !listed ==> then == (app, Ask::Resolve)
            &&& key == Key::Enter && listed && i < form.config_hosts.len() ==> {
                let params = form.config_hosts[i].connect_params(true, env);
                &&& then.1 == Ask::Nothing
                &&& then.0.mode is List
                &&& asked(
                    AppView { mode: Mode::List, ..app },
                    then.0,
                    CommandView::ConnectHost { params },
                    now,
                    "正在连接已知主机 ["@ + params.display_name() + "]…"@,
                )
            }
        }),
{
}

/// The login that the form asks for is the password as it is typed, or the key file without
/// white space round it; none where no key file is named.
pub proof fn lemma_form_login(form: FormConnectView, before: Seq<char>, path: Seq<char>, after: Seq<
    char,
>)
    requires
        form.key_path == before + path + after,
        all_white(before),
        all_white(after),
        path.len() > 0 ==> !is_white(path[0]) && !is_white(path.last()),
    ensures
        form.auth_type == AuthType::Password ==> form.auth() == Some(
            AuthView::Password(form.password),
        ),
        form.auth_type == AuthType::KeyFile && path.len() > 0 ==> form.auth() == Some(
            AuthView::KeyFile(plain_path(encode_utf8(path))),
        ),
        form.auth_type == AuthType::KeyFile && path.len() == 0 ==> form.auth() is None,
{
    lemma_trim(before, path, after);
}

/// A form with a target asks to connect what the target means, and the list is shown; where it
/// means nothing, that is said, and where there is no target, that one is to be typed.
pub proof fn lemma_submitting(
    app: AppView,
    meaning: Result<ConnectParamsView, Seq<char>>,
    now: i64,
    i: int,
)
    ensures
        ({
            let after = app.submitting(meaning, now);
            let target = app.form_connect.target;
            &&& all_white(target) ==> after == AppView {
                status: Some(("请输入目标主机（如 user@host 或 ~/.ssh/config 别名）"@, true)),
                ..app
            }
            &&& 0 <= i < target.len() && !is_white(target[i]) && meaning is Err ==> after
                == AppView { status: Some((meaning->Err_0, true)), ..app }
            &&& 0 <= i < target.len() && !is_white(target[i]) && meaning is Ok ==> asked(
                AppView { mode: Mode::List, ..app },
                after,
                CommandView::ConnectHost { params: meaning->Ok_0 },
                now,
                "正在连接主机 ["@ + meaning->Ok_0.display_name() + "]…"@,
            )
        }),
{
    let target = app.form_connect.target;
    if all_white(target) {
        assert(target =~= target + Seq::<char>::empty() + Seq::<char>::empty());
        lemma_trim(target, Seq::empty(), Seq::empty());
    }
    if 0 <= i < target.len() && !is_white(target[i]) {
        lemma_not_blank(target, i);
    }
}

/// A text with a character that is not white is not blank.
pub proof fn lemma_not_blank(s: Seq<char>, i: int)
    requires
        0 <= i < s.len(),
        !is_white(s[i]),
    ensures
        trim(s).len() > 0,
{
    let first = lemma_first_solid(s, i);
    let last = lemma_last_solid(s, first);
    let before = s.take(first);
    let core = s.subrange(first, last + 1);
    let after = s.skip(last + 1);
    assert(s =~= before + core + after);
    assert(core.last() == s[last]);
    lemma_trim(before, core, after);
}

proof fn lemma_first_solid(s: Seq<char>, i: int) -> (n: int)
    requires
        0 <= i < s.len(),
        !is_white(s[i]),
    ensures
        0 <= n <= i,
        !is_white(s[n]),
        forall|k: int| 0 <= k < n ==> is_white(#[trigger] s[k]),
    decreases i,
{
    if exists|k: int| 0 <= k < i && !is_white(#[trigger] s[k]) {
        let k = choose|k: int| 0 <= k < i && !is_white(#[trigger] s[k]);
        lemma_first_solid(s, k)
    } else {
        i
    }
}

proof fn lemma_last_solid(s: Seq<char>, i: int) -> (n: int)
    requires
        0 <= i < s.len(),
        !is_white(s[i]),
    ensures
        i <= n < s.len(),
        !is_white(s[n]),
        forall|k: int| n < k < s.len() ==> is_white(#[trigger] s[k]),
    decreases s.len() - i,
{
    if exists|k: int| i < k < s.len() && !is_white(#[trigger] s[k]) {
        let k = choose|k: int| i < k < s.len() && !is_white(#[trigger] s[k]);
        lemma_last_solid(s, k)
    } else {
        i
    }
}

// ---------- The form for a tunnel ----------

/// Whether a text is digits with white space round them, and the number that they write is not
/// too great.
pub open spec fn number_in(
    text: Seq<char>,
    before: Seq<char>,
    digits: Seq<char>,
    after: Seq<char>,
    max: nat,
) -> bool {
    &&& text == before + digits + after
    &&& all_white(before)
    &&& all_white(after)
    &&& digits.len() > 0
    &&& all_digits(digits)
    &&& value(digits) <= max
}

proof fn lemma_number_in(
    text: Seq<char>,
    before: Seq<char>,
    digits: Seq<char>,
    after: Seq<char>,
    max: nat,
)
    requires
        number_in(text, before, digits, after, max),
    ensures
        trim(text) == digits,
        unsigned(trim(text), max) == Some(value(digits)),
{
    assert(is_digit(digits[0]) && is_digit(digits[digits.len() - 1]));
    lemma_trim(before, digits, after);
    lemma_unsigned(digits, max);
}

/// A form with a local port and nothing else means the tunnel to the same port of the remote
/// host itself; with a number for the remote end, to that port of the remote host itself; with
/// a host, a colon and a number, to that port of that host. White space plays no part.
pub proof fn lemma_tunnel_form(
    form: FormTunnelView,
    a: Seq<char>,
    local: Seq<char>,
    b: Seq<char>,
    c: Seq<char>,
    host: Seq<char>,
    d: Seq<char>,
    e: Seq<char>,
    port: Seq<char>,
    f: Seq<char>,
)
    requires
        number_in(form.local_port, a, local, b, 65535),
    ensures
        all_white(form.remote) ==> form.parsed() == Ok::<(u16, Seq<char>, u32), Seq<char>>(
            (value(local) as u16, "localhost"@, value(local) as u32),
        ),
        number_in(form.remote, e, port, f, u32::MAX as nat) ==> form.parsed() == Ok::<
            (u16, Seq<char>, u32),
            Seq<char>,
        >((value(local) as u16, "localhost"@, value(port) as u32)),
        form.remote == c + host + d + seq![':'] + (e + port + f) && all_white(c) && all_white(d)
            && host.len() > 0 && !is_white(host[0]) && !is_white(host.last()) && (forall|i: int|
            0 <= i < host.len() ==> #[trigger] host[i] != ':') && number_in(
            e + port + f,
            e,
            port,
            f,
            u32::MAX as nat,
        ) ==> form.parsed() == Ok::<(u16, Seq<char>, u32), Seq<char>>(
            (value(local) as u16, host, value(port) as u32),
        ),
{
    let none = Seq::<char>::empty();
    lemma_number_in(form.local_port, a, local, b, 65535);
    let remote = form.remote;
    if all_white(remote) {
        assert(remote =~= remote + none + none);
        lemma_trim(remote, none, none);
    }
    if number_in(remote, e, port, f, u32::MAX as nat) {
        lemma_number_in(remote, e, port, f, u32::MAX as nat);
    }
    if form.remote == c + host + d + seq![':'] + (e + port + f) && all_white(c) && all_white(d)
        && host.len() > 0 && !is_white(host[0]) && !is_white(host.last()) && (forall|i: int|
        0 <= i < host.len() ==> #[trigger] host[i] != ':') && number_in(
        e + port + f,
        e,
        port,
        f,
        u32::MAX as nat,
    ) {
        assert(is_digit(port[0]) && is_digit(port[port.len() - 1]));
        let core = host + d + seq![':'] + (e + port);
        assert(remote =~= c + core + f);
        assert(core[0] == host[0]);
        assert(core.last() == port[port.len() - 1]);
        lemma_trim(c, core, f);
        let n = (host.len() + d.len()) as int;
        assert(core[n] == ':');
        assert(!is_digit(core[n]));
        assert(!all_digits(core));
        assert forall|j: int| 0 <= j < n implies #[trigger] core[j] != ':' by {
            if j < host.len() {
                assert(core[j] == host[j]);
            } else {
                assert(core[j] == d[j - host.len()]);
                assert(is_white(d[j - host.len()]));
            }
        }
        lemma_find(core, ':', n);
        assert(core.take(n) =~= none + host + d);
        lemma_trim(none, host, d);
        assert(core.skip(n + 1) =~= e + port + none);
        assert(number_in(core.skip(n + 1), e, port, none, u32::MAX as nat));
        lemma_number_in(core.skip(n + 1), e, port, none, u32::MAX as nat);
        assert(remote_end(remote, value(local) as u16) == Ok::<(Seq<char>, u32), Seq<char>>(
            (host, value(port) as u32),
        ));
    }
}

/// A form that means no tunnel says why: the local port is no port, the remote end has neither
/// the form of a port nor that of a host with a port, its host is empty, or its port is no
/// number.
pub proof fn lemma_tunnel_form_refused(
    form: FormTunnelView,
    a: Seq<char>,
    local: Seq<char>,
    b: Seq<char>,
    remote: Seq<char>,
    host: Seq<char>,
    port: Seq<char>,
)
    requires
        form.remote == remote,
        remote.len() > 0,
        !is_white(remote[0]),
        !is_white(remote.last()),
    ensures
        unsigned(trim(form.local_port), 65535) is None ==> form.parsed() == Err::<
            (u16, Seq<char>, u32),
            Seq<char>,
        >("本地端口格式错误："@ + trim(form.local_port)),
        number_in(form.local_port, a, local, b, 65535) && !all_digits(remote) && (forall|i: int|
            0 <= i < remote.len() ==> #[trigger] remote[i] != ':') ==> form.parsed() == Err::<
            (u16, Seq<char>, u32),
            Seq<char>,
        >("远端目标格式应为 host:port 或只填端口："@ + remote),
        number_in(form.local_port, a, local, b, 65535) && all_digits(remote) && value(remote)
            > u32::MAX ==> form.parsed() == Err::<(u16, Seq<char>, u32), Seq<char>>(
            "远端端口格式错误："@ + remote,
        ),
        number_in(form.local_port, a, local, b, 65535) && remote == seq![':'] + port
            ==> form.parsed() == Err::<(u16, Seq<char>, u32), Seq<char>>("远端 host 不能为空"@),
        number_in(form.local_port, a, local, b, 65535) && remote == host + seq![':'] + port
            && host.len() > 0 && !is_white(host[0]) && (forall|i: int|
            0 <= i < host.len() ==> #[trigger] host[i] != ':') && unsigned(
            trim(port),
            u32::MAX as nat,
        ) is None ==> form.parsed() == Err::<(u16, Seq<char>, u32), Seq<char>>(
            "远端端口格式错误："@ + port,
        ),
{
    let none = Seq::<char>::empty();
    assert(remote =~= none + remote + none);
    lemma_trim(none, remote, none);
    if number_in(form.local_port, a, local, b, 65535) {
        lemma_number_in(form.local_port, a, local, b, 65535);
        lemma_unsigned(remote, u32::MAX as nat);
        if forall|i: int| 0 <= i < remote.len() ==> #[trigger] remote[i] != ':' {
            lemma_find(remote, ':', remote.len() as int);
        }
        if remote == seq![':'] + port {
            assert(remote[0] == ':');
            lemma_find(remote, ':', 0);
            assert(!is_digit(remote[0]));
            assert(remote.take(0) =~= none + none + none);
            lemma_trim(none, none, none);
        }
        if remote == host + seq![':'] + port && host.len() > 0 && !is_white(host[0]) && (forall|
            i: int,
        |
            0 <= i < host.len() ==> #[trigger] host[i] != ':') {
            let n = host.len() as int;
            assert(remote[n] == ':');
            assert(!is_digit(remote[n]));
            assert forall|j: int| 0 <= j < n implies #[trigger] remote[j] != ':' by {
                assert(remote[j] == host[j]);
            }
            lemma_find(remote, ':', n);
            assert(remote.take(n) =~= host);
            assert(remote.skip(n + 1) =~= port);
            lemma_not_blank(host, 0);
        }
    }
}

/// What is typed in the form for a tunnel goes to the end of the field with the focus, of
/// which the local port takes digits alone, and Backspace takes the last character away.
pub proof fn lemma_typing_tunnel(
    app: AppView,
    c: char,
    control: bool,
    env: EnvironmentView,
    now: i64,
)
    requires
        app.mode is InputTunnel,
    ensures
        ({
            let typed = app.after_key(pressing(Key::Char(c), control), env, now);
            let erased = app.after_key(pressing(Key::Backspace, control), env, now);
            let form = app.form_tunnel;
            let with = |form_tunnel: FormTunnelView|
                (AppView { form_tunnel, ..app }, Ask::Nothing);
            let local = form.focus == FormTunnelFocus::LocalPort;
            let remote = form.focus == FormTunnelFocus::RemoteTarget;
            &&& local && '0' <= c <= '9' ==> typed == with(
                FormTunnelView { local_port: form.local_port.push(c), ..form },
            )
            &&& local && !('0' <= c <= '9') ==> typed == (app, Ask::Nothing)
            &&& remote ==> typed == with(FormTunnelView { remote: form.remote.push(c), ..form })
            &&& local && form.local_port.len() > 0 ==> erased == with(
                FormTunnelView { local_port: form.local_port.drop_last(), ..form },
            )
            &&& remote && form.remote.len() > 0 ==> erased == with(
                FormTunnelView { remote: form.remote.drop_last(), ..form },
            )
        }),
{
}

/// In the form for a tunnel the focus goes from the local port to the remote end, to the
/// remote ports where there are any, and back to the local port; Esc leads back to the list.
pub proof fn lemma_tunnel_form_circle(app: AppView, control: bool, env: EnvironmentView, now: i64)
    requires
        app.mode is InputTunnel,
    ensures
        ({
            let then = |key: Key| app.after_key(pressing(key, control), env, now);
            let at = |focus: FormTunnelFocus|
                (
                    AppView { form_tunnel: FormTunnelView { focus, ..app.form_tunnel }, ..app },
                    Ask::Nothing,
                );
            let some = app.remote_ports.len() > 0;
            let focus = app.form_tunnel.focus;
            &&& focus == FormTunnelFocus::LocalPort ==> then(Key::Tab) == at(
                FormTunnelFocus::RemoteTarget,
            ) && then(Key::Down) == at(FormTunnelFocus::RemoteTarget) && then(Key::Up) == (
                app,
                Ask::Nothing,
            )
            &&& focus == FormTunnelFocus::RemoteTarget && some ==> then(Key::Tab) == at(
                FormTunnelFocus::RemoteList,
            ) && then(Key::Down) == at(FormTunnelFocus::RemoteList)
            &&& focus == FormTunnelFocus::RemoteTarget && !some ==> then(Key::Tab) == at(
                FormTunnelFocus::LocalPort,
            ) && then(Key::Down) == (app, Ask::Nothing)
            &&& focus == FormTunnelFocus::RemoteTarget ==> then(Key::Up) == at(
                FormTunnelFocus::LocalPort,
            )
            &&& focus == FormTunnelFocus::RemoteList ==> then(Key::Tab) == at(
                FormTunnelFocus::LocalPort,
            )
            &&& then(Key::Esc) == (
                AppView { mode: Mode::List, status: None, ..app },
                Ask::Nothing,
            )
        }),
{
}

/// In the list of remote ports, keys move the selection by one, out of the list above its
/// first entry and not beyond its last one; the blank is for filling in the selected port,
/// Enter for adding a tunnel to it, and `r` for looking for the ports of the host again.
pub proof fn lemma_in_remote_ports(app: AppView, control: bool, env: EnvironmentView, now: i64)
    requires
        app.mode is InputTunnel,
        app.form_tunnel.focus == FormTunnelFocus::RemoteList,
        app.ports_selected < app.remote_ports.len() <= usize::MAX,
    ensures
        ({
            let then = |key: Key| app.after_key(pressing(key, control), env, now);
            let i = app.ports_selected as int;
            let at = |n: int| (AppView { ports_selected: n as usize, ..app }, Ask::Nothing);
            let down = if i + 1 < app.remote_ports.len() {
                at(i + 1)
            } else {
                (app, Ask::Nothing)
            };
            let up = if i > 0 {
                at(i - 1)
            } else {
                (
                    AppView {
                        form_tunnel: FormTunnelView {
                            focus: FormTunnelFocus::RemoteTarget,
                            ..app.form_tunnel
                        },
                        ..app
                    },
                    Ask::Nothing,
                )
            };
            let port = app.remote_ports[i].port;
            let id = app.form_tunnel.session_id;
            let again = (
                AppView {
                    pending_cmds: app.pending_cmds.push(CommandView::ScanPorts { session_id: id }),
                    pending_scan: Some(id),
                    ..app
                },
                Ask::Nothing,
            );
            &&& then(Key::Down) == down
            &&& then(Key::Char('j')) == down
            &&& then(Key::Up) == up
            &&& then(Key::Char('k')) == up
            &&& then(Key::Char(' ')) == (app, Ask::PortToFill(port))
            &&& then(Key::Enter) == (app, Ask::PortToAdd(port))
            &&& then(Key::Char('r')) == again
            &&& then(Key::Char('R')) == again
        }),
{
}

/// Enter in a field of the form for a tunnel asks for the tunnel that the form means, of the
/// host that the form is for, or says why it means none; but with no local port it leads on to
/// the remote ports, or to the remote end where there are none.
pub proof fn lemma_tunnel_form_enter(app: AppView, control: bool, env: EnvironmentView, now: i64)
    requires
        app.mode is InputTunnel,
        app.form_tunnel.focus != FormTunnelFocus::RemoteList,
    ensures
        ({
            let then = app.after_key(pressing(Key::Enter, control), env, now);
            let form = app.form_tunnel;
            let blank = form.focus == FormTunnelFocus::LocalPort && trim(form.local_port).len()
                == 0;
            let at = |focus: FormTunnelFocus|
                AppView { form_tunnel: FormTunnelView { focus, ..form }, ..app };
            &&& then.1 == Ask::Nothing
            &&& blank && app.remote_ports.len() > 0 ==> then.0 == at(FormTunnelFocus::RemoteList)
            &&& blank && app.remote_ports.len() == 0 ==> then.0 == at(
                FormTunnelFocus::RemoteTarget,
            )
            &&& !blank && form.parsed() is Err ==> then.0 == AppView {
                status: Some((form.parsed()->Err_0, true)),
                ..app
            }
            &&& !blank && form.parsed() is Ok ==> {
                let (local_port, remote_host, remote_port) = form.parsed()->Ok_0;
                asked(
                    AppView { mode: Mode::List, ..app },
                    then.0,
                    CommandView::AddTunnel {
                        session_id: form.session_id,
                        local_port,
                        remote_host,
                        remote_port,
                    },
                    now,
                    "正在向主机 ["@ + form.session_id + "] 添加隧道 "@ + dec(local_port as nat)
                        + "…"@,
                )
            }
        }),
{
}

/// A remote port that is added at once asks for the tunnel from the free local port to that
/// port of the remote host itself, of the host that the form is for: the very request that
/// filling it in and Enter make. The list is shown then, and the message says where the
/// tunnel leads, and whether the local port is another one.
pub proof fn lemma_port_added(app: AppView, port: u16, local: u16, now: i64)
    ensures
        ({
            let after = app.adding_from_port(port, local, now);
            let request = CommandView::AddTunnel {
                session_id: app.form_tunnel.session_id,
                local_port: local,
                remote_host: "localhost"@,
                remote_port: port as u32,
            };
            let way = "正在向主机 ["@ + app.form_tunnel.session_id + "] 添加隧道 "@ + dec(
                local as nat,
            ) + " -> localhost:"@ + dec(port as nat) + " "@;
            &&& asked(
                AppView { mode: Mode::List, ..app },
                after,
                request,
                now,
                if local == port {
                    way
                } else {
                    way + ("（本地端口已被占用，自动分配为 "@ + dec(local as nat) + "）"@)
                },
            )
            &&& after.pending_cmds == app.filling_from_port(port, local).tunnel_key(
                Key::Enter,
                now,
            ).0.pending_cmds
        }),
{
    crate::app_laws::lemma_fill_then_enter(app, port, local, now);
    let way = "正在向主机 ["@ + app.form_tunnel.session_id + "] 添加隧道 "@ + dec(local as nat)
        + " -> localhost:"@ + dec(port as nat) + " "@;
    assert(way + Seq::<char>::empty() =~= way);
}

/// A remote port that is filled in stands in the form as the remote end, and the free local
/// port as the local one; the focus is on the latter, and nothing is asked for.
pub proof fn lemma_port_filled(app: AppView, port: u16, local: u16)
    ensures
        ({
            let after = app.filling_from_port(port, local);
            &&& after.form_tunnel == FormTunnelView {
                local_port: dec(local as nat),
                remote: "localhost:"@ + dec(port as nat),
                focus: FormTunnelFocus::LocalPort,
                ..app.form_tunnel
            }
            &&& local == port ==> after.status == Some(
                (
                    "已自动填入端口 "@ + dec(port as nat) + "，可按需修改本地端口后回车提交"@,
                    false,
                ),
            )
            &&& local != port ==> after.status == Some(
                (
                    "已自动填入端口 "@ + dec(port as nat) + "（原本地端口已被占用，推荐可用端口 "@
                        + dec(local as nat) + "）"@,
                    false,
                ),
            )
            &&& after == AppView {
                form_tunnel: after.form_tunnel,
                status: after.status,
                ..app
            }
        }),
{
}

// ---------- News ----------

/// News of the hosts is what is shown from then on. The host that is shown stays the same
/// place, or becomes the last one where that place is gone, and so does the tunnel that is
/// selected; nothing else changes.
pub proof fn lemma_news_of_hosts(app: AppView, hosts: Seq<HostSummaryView>)
    requires
        hosts.len() <= usize::MAX,
        forall|i: int| 0 <= i < hosts.len() ==> (#[trigger] hosts[i]).tunnels.len() <= usize::MAX,
    ensures
        ({
            let after = app.with_hosts(hosts);
            &&& after.hosts == hosts
            &&& app.active_host < hosts.len() ==> after.active_host == app.active_host
            &&& app.active_host >= hosts.len() > 0 ==> after.active_host == hosts.len() - 1
            &&& hosts.len() == 0 ==> after.active_host == 0 && after.selected_tunnel == 0
            &&& hosts.len() > 0 ==> {
                let tunnels = hosts[after.active_host as int].tunnels;
                &&& app.selected_tunnel < tunnels.len() ==> after.selected_tunnel
                    == app.selected_tunnel
                &&& app.selected_tunnel >= tunnels.len() > 0 ==> after.selected_tunnel
                    == tunnels.len() - 1
                &&& tunnels.len() == 0 ==> after.selected_tunnel == 0
            }
            &&& after == AppView {
                hosts: after.hosts,
                active_host: after.active_host,
                selected_tunnel: after.selected_tunnel,
                ..app
            }
        }),
{
}

/// The ports of a host are taken where they were asked for and the form for a tunnel of that
/// host is open; otherwise they are let go. They are not asked for any more then.
pub proof fn lemma_news_of_ports(app: AppView, ports: Seq<RemotePortView>)
    requires
        ports.len() <= usize::MAX,
    ensures
        ({
            let after = app.with_ports(ports);
            let wanted = app.pending_scan is Some && app.mode is InputTunnel
                && app.form_tunnel.session_id == app.pending_scan->0;
            &&& after.pending_scan is None
            &&& wanted ==> after.remote_ports == ports
            &&& wanted && app.ports_selected < ports.len() ==> after.ports_selected
                == app.ports_selected
            &&& wanted && app.ports_selected >= ports.len() > 0 ==> after.ports_selected
                == ports.len() - 1
            &&& wanted && ports.len() == 0 ==> after.ports_selected == 0
            &&& !wanted ==> after.remote_ports == app.remote_ports && after.ports_selected
                == app.ports_selected
            &&& after == AppView {
                remote_ports: after.remote_ports,
                ports_selected: after.ports_selected,
                pending_scan: after.pending_scan,
                ..app
            }
        }),
{
}

/// An answer that is waited for is shown, as a success or with its message as an error, and
/// waited for no more; one that does not come is given up after ten seconds, and waited for
/// until then.
pub proof fn lemma_answer(
    app: AppView,
    reply: Option<Result<(), Seq<char>>>,
    started: i64,
    now: i64,
)
    ensures
        ({
            let after = app.with_reply(reply, now);
            let waiting = app.pending_reply == Some(started);
            let done = |message: Seq<char>, is_error: bool|
                AppView { pending_reply: None, status: Some((message, is_error)), ..app };
            &&& app.pending_reply is None ==> after == app
            &&& waiting && reply is Some && reply->0 is Ok ==> after == done("操作成功"@, false)
            &&& waiting && reply is Some && reply->0 is Err ==> after == done(
                reply->0->Err_0,
                true,
            )
            &&& waiting && reply is None && now - started > 10_000_000_000 ==> after == done(
                "后台命令超时，请重试"@,
                true,
            )
            &&& waiting && reply is None && now - started <= 10_000_000_000 ==> after == app
        }),
{
}

/// The program starts with the list, without hosts, requests or messages; the form for a host
/// opens empty, for a key, and with the focus on the listed hosts where there are any.
pub proof fn lemma_start(config_hosts: Seq<SshConfigHostView>)
    ensures
        ({
            let app = initial(config_hosts);
            &&& app.mode is List && !app.quit
            &&& app.hosts.len() == 0 && app.active_host == 0 && app.selected_tunnel == 0
            &&& app.pending_cmds.len() == 0 && app.pending_reply is None && app.pending_scan is None
            &&& app.status is None && app.remote_ports.len() == 0
            &&& app.form_connect == empty_connect_form(config_hosts)
        }),
        ({
            let form = empty_connect_form(config_hosts);
            &&& form.target.len() == 0 && form.key_path.len() == 0 && form.password.len() == 0
            &&& form.auth_type == AuthType::KeyFile
            &&& form.config_hosts == config_hosts && form.config_selected == 0
            &&& config_hosts.len() > 0 ==> form.focus == ConnectFocus::ConfigList
            &&& config_hosts.len() == 0 ==> form.focus == ConnectFocus::Target
        }),
{
}

// ---------- Keys without effect ----------

/// Whether a key has an effect in the list.
pub open spec fn list_key_known(key: Key, control: bool) -> bool {
    match key {
        Key::Esc | Key::Left | Key::Right | Key::Delete | Key::Down | Key::Up => true,
        Key::Char(c) => '1' <= c <= '9' || c == 'q' || (c == 'c' && control) || c == 'H' || c
            == '[' || c == 'L' || c == ']' || c == 'n' || c == 'N' || c == 'x' || c == 'X' || c
            == 'r' || c == 'R' || c == 'a' || c == 'p' || c == ' ' || c == 's' || c == 'S' || c
            == 'd' || c == 'j' || c == 'k' || c == 'l',
        _ => false,
    }
}

/// A key that is not for anything does nothing; and one that is for a tunnel, or for a host,
/// does nothing where none is selected.
pub proof fn lemma_keys_without_effect(
    app: AppView,
    key: Key,
    control: bool,
    env: EnvironmentView,
    now: i64,
)
    requires
        app.mode is List,
    ensures
        ({
            let then = |key: Key| app.after_key(pressing(key, control), env, now);
            let still = (app, Ask::Nothing);
            let none = app.active_host >= app.hosts.len();
            let no_tunnel = none || app.selected_tunnel
                >= app.hosts[app.active_host as int].tunnels.len();
            &&& !list_key_known(key, control) ==> then(key) == still
            &&& none ==> then(Key::Char('x')) == still && then(Key::Char('r')) == still
            &&& no_tunnel ==> {
                &&& then(Key::Char('d')) == still
                &&& then(Key::Delete) == still
                &&& then(Key::Char(' ')) == still
                &&& then(Key::Char('s')) == still
                &&& then(Key::Char('S')) == still
                &&& then(Key::Char('l')) == still
            }
        }),
{
}

/// In the forms and in the log, too, a key that is not for anything does nothing.
pub proof fn lemma_keys_without_effect_elsewhere(
    app: AppView,
    key: Key,
    control: bool,
    env: EnvironmentView,
    now: i64,
    c: char,
)
    ensures
        ({
            let then = |key: Key| app.after_key(pressing(key, control), env, now);
            let still = (app, Ask::Nothing);
            let form = app.form_connect;
            let idle = key == Key::Delete || key == Key::Other;
            &&& !(app.mode is List) && idle ==> then(key) == still
            &&& app.mode is InputTunnel && (key == Key::Left || key == Key::Right) ==> then(key)
                == still
            &&& app.mode is ConnectHost && form.focus != ConnectFocus::AuthTypeToggle && (key
                == Key::Left || key == Key::Right) ==> then(key) == still
            &&& app.mode is ConnectHost && form.focus == ConnectFocus::AuthTypeToggle && c != ' '
                && c != '1' && c != 'k' && c != 'K' && c != '2' && c != 'p' && c != 'P' ==> then(
                Key::Char(c),
            ) == still
            &&& app.mode is ConnectHost && form.focus == ConnectFocus::ConfigList && c != ' ' && c
                != 'j' && c != 'k' ==> then(Key::Char(c)) == still
            &&& app.mode is ConnectHost && (form.focus == ConnectFocus::ConfigList || form.focus
                == ConnectFocus::AuthTypeToggle) ==> then(Key::Backspace) == still
            &&& app.mode is InputTunnel && app.form_tunnel.focus == FormTunnelFocus::RemoteList && c
                != ' ' && c != 'j' && c != 'k' && c != 'r' && c != 'R' ==> then(Key::Char(c))
                == still
            &&& app.mode is InputTunnel && app.form_tunnel.focus == FormTunnelFocus::RemoteList
                ==> then(Key::Backspace) == still
            &&& app.mode is Log && c != 'q' && c != 'j' && c != 'k' && c != 'g' && c != 'G'
                ==> then(Key::Char(c)) == still
        }),
{
    assert(AppView { form_connect: app.form_connect, ..app } == app);
}

} // verus!
