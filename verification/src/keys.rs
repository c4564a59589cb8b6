//! What a key does, in each mode.

use vstd::prelude::*;

use crate::app::App;
use crate::app::AppView;
use crate::app::Ask;
use crate::app::KeyPress;
use crate::app::Mode;
use crate::forms::below;
use crate::forms::empty_tunnel_form;
use crate::forms::entry_below;
use crate::forms::shortened;
use crate::forms::trimmed_text;
use crate::forms::ConnectFocus;
use crate::forms::FormTunnel;
use crate::forms::FormTunnelFocus;
use crate::forms::FormTunnelView;
use crate::forms::Key;
use crate::paths::Environment;
use crate::paths::EnvironmentView;
use crate::target::SshConfigHost;
use crate::text::digit;
use crate::text::is_digit;
use crate::text::trim;

verus! {

// ---------- The list of tunnels ----------

/// The digits that show a host right away, and which.
pub open spec fn host_digit(key: Key) -> Option<int> {
    match key {
        Key::Char(c) => if '1' <= c <= '9' {
            Some(c as int - '1' as int)
        } else {
            None
        },
        _ => None,
    }
}

impl AppView {
    /// The state with another host shown, and its first tunnel selected.
    pub open spec fn at_host(self, i: int) -> AppView {
        AppView { active_host: i as usize, selected_tunnel: 0, ..self }
    }

    /// The state with the tunnel selected that lies `delta` behind the selected one, in a
    /// circle.
    pub open spec fn selecting(self, delta: int) -> AppView {
        match self.current() {
            Some(host) => if host.tunnels.len() > 0 {
                AppView {
                    selected_tunnel: ((self.selected_tunnel + delta) % host.tunnels.len() as int)
                        as usize,
                    ..self
                }
            } else {
                self
            },
            None => self,
        }
    }

    /// The state with the form for a tunnel of the host that is shown, while its ports are
    /// being listed.
    pub open spec fn opening_tunnel_form(self, focus: FormTunnelFocus) -> AppView {
        let id = self.current()->0.id;
        AppView {
            mode: Mode::InputTunnel,
            form_tunnel: FormTunnelView { focus, ..empty_tunnel_form(id) },
            remote_ports: Seq::empty(),
            ports_selected: 0,
            status: None,
            ..self
        }.scanning(id)
    }

    /// What a key does to the list of tunnels.
    pub open spec fn list_key(self, key: Key, control: bool, now: i64) -> (AppView, Ask) {
        if key == Key::Char('q') || key == Key::Esc || (key == Key::Char('c') && control) {
            (AppView { quit: true, ..self }, Ask::Nothing)
        } else if key == Key::Char('H') || key == Key::Left || key == Key::Char('[') {
            if self.hosts.len() == 0 {
                (self, Ask::Nothing)
            } else if self.active_host > 0 {
                (self.at_host(self.active_host - 1), Ask::Nothing)
            } else {
                (self.at_host(0), Ask::Nothing)
            }
        } else if key == Key::Char('L') || key == Key::Right || key == Key::Char(']') {
            if self.active_host + 1 < self.hosts.len() {
                (self.at_host(self.active_host + 1), Ask::Nothing)
            } else {
                (self, Ask::Nothing)
            }
        } else if host_digit(key) is Some {
            if host_digit(key)->0 < self.hosts.len() {
                (self.at_host(host_digit(key)->0), Ask::Nothing)
            } else {
                (self, Ask::Nothing)
            }
        } else if key == Key::Char('n') || key == Key::Char('N') {
            (self, Ask::KnownHosts)
        } else if key == Key::Char('x') || key == Key::Char('X') {
            (self.disconnecting(now), Ask::Nothing)
        } else if key == Key::Char('r') || key == Key::Char('R') {
            (self.reconnecting(now), Ask::Nothing)
        } else if key == Key::Char('a') || key == Key::Char('p') {
            if self.current() is None {
                (self, Ask::KnownHosts)
            } else if key == Key::Char('a') {
                (self.opening_tunnel_form(FormTunnelFocus::LocalPort), Ask::Nothing)
            } else {
                (self.opening_tunnel_form(FormTunnelFocus::RemoteList), Ask::Nothing)
            }
        } else if key == Key::Char(' ') || key == Key::Char('s') || key == Key::Char('S') {
            (self.toggling(now), Ask::Nothing)
        } else if key == Key::Char('d') || key == Key::Delete {
            (self.removing(now), Ask::Nothing)
        } else if key == Key::Char('j') || key == Key::Down {
            (self.selecting(1), Ask::Nothing)
        } else if key == Key::Char('k') || key == Key::Up {
            (self.selecting(-1), Ask::Nothing)
        } else if key == Key::Char('l') && self.selected() is Some {
            (
                self.silent().showing(
                    Mode::Log { port: self.selected()->0.local_port, scroll: 0 },
                ),
                Ask::Nothing,
            )
        } else {
            (self, Ask::Nothing)
        }
    }
}

impl App {
    fn go_to_host(&mut self, i: usize)
        ensures
            final(self)@ == old(self)@.at_host(i as int),
    {
        self.active_host = i;
        self.selected_tunnel = 0;
    }

    /// Selects the tunnel that lies `delta` behind the selected one, in a circle.
    pub fn select_tunnel(&mut self, delta: isize)
        ensures
            final(self)@ == old(self)@.selecting(delta as int),
    {
        let len: usize = match self.current_host() {
            Some(host) => {
                assert(host@.tunnels.len() == host.tunnels@.len());
                host.tunnels.len()
            },
            None => {
                return;
            },
        };
        if len == 0 {
            return;
        }
        let place: i128 = self.selected_tunnel as i128 + delta as i128;
        if let Some(i) = place.checked_rem_euclid(len as i128) {
            self.selected_tunnel = i as usize;
        }
    }

    fn open_tunnel_form(&mut self, id: String, focus: FormTunnelFocus)
        requires
            old(self)@.current() is Some,
            id@ == old(self)@.current()->0.id,
        ensures
            final(self)@ == old(self)@.opening_tunnel_form(focus),
    {
        self.mode = Mode::InputTunnel;
        self.form_tunnel = FormTunnel::new(id.clone());
        self.form_tunnel.focus = focus;
        self.remote_ports.clear();
        self.ports_selected = 0;
        self.status = None;
        assert(self@.remote_ports =~= Seq::empty());
        self.refresh_ports(id.as_str());
    }

    fn on_list_key(&mut self, key: Key, control: bool, now: i64) -> (ask: Ask)
        ensures
            (final(self)@, ask) == old(self)@.list_key(key, control, now),
    {
        match key {
            Key::Esc => {
                self.quit = true;
            },
            Key::Left => {
                return self.on_left();
            },
            Key::Right => {
                return self.on_right();
            },
            Key::Delete => {
                self.remove_selected_tunnel(now);
            },
            Key::Down => {
                self.select_tunnel(1);
            },
            Key::Up => {
                self.select_tunnel(-1);
            },
            Key::Char(c) => {
                return self.on_list_char(c, control, now);
            },
            _ => {},
        }
        Ask::Nothing
    }

    fn on_left(&mut self) -> (ask: Ask)
        ensures
            (final(self)@, ask) == old(self)@.list_key(Key::Left, false, 0),
    {
        if self.hosts.len() > 0 {
            let i: usize = self.active_host.saturating_sub(1);
            self.go_to_host(i);
        }
        Ask::Nothing
    }

    fn on_right(&mut self) -> (ask: Ask)
        ensures
            (final(self)@, ask) == old(self)@.list_key(Key::Right, false, 0),
    {
        if self.hosts.len() > 0 && self.active_host < self.hosts.len() - 1 {
            let i: usize = self.active_host + 1;
            self.go_to_host(i);
        }
        Ask::Nothing
    }

    fn on_list_char(&mut self, c: char, control: bool, now: i64) -> (ask: Ask)
        ensures
            (final(self)@, ask) == old(self)@.list_key(Key::Char(c), control, now),
    {
        if c == 'q' || (c == 'c' && control) {
            self.quit = true;
        } else if c == 'H' || c == '[' {
            return self.on_left();
        } else if c == 'L' || c == ']' {
            return self.on_right();
        } else if '1' <= c && c <= '9' {
            let i: usize = c as usize - '1' as usize;
            if i < self.hosts.len() {
                self.go_to_host(i);
            }
        } else if c == 'n' || c == 'N' {
            return Ask::KnownHosts;
        } else if c == 'x' || c == 'X' {
            self.disconnect_current_host(now);
        } else if c == 'r' || c == 'R' {
            self.reconnect_current_host(now);
        } else if c == 'a' || c == 'p' {
            match self.current_id() {
                Some(id) => {
                    let focus = if c == 'a' {
                        FormTunnelFocus::LocalPort
                    } else {
                        FormTunnelFocus::RemoteList
                    };
                    self.open_tunnel_form(id, focus);
                },
                None => {
                    return Ask::KnownHosts;
                },
            }
        } else if c == ' ' || c == 's' || c == 'S' {
            self.toggle_selected_tunnel(now);
        } else if c == 'd' {
            self.remove_selected_tunnel(now);
        } else if c == 'j' {
            self.select_tunnel(1);
        } else if c == 'k' {
            self.select_tunnel(-1);
        } else if c == 'l' {
            if let Some((_, port, _)) = self.selection() {
                self.mode = Mode::Log { port, scroll: 0 };
                self.status = None;
            }
        }
        Ask::Nothing
    }
}

// ---------- The form for a host ----------

impl AppView {
    /// What a key does to the form for a host.
    pub open spec fn connect_key(self, key: Key, env: EnvironmentView, now: i64) -> (AppView, Ask) {
        match key {
            Key::Esc => (self.silent().showing(Mode::List), Ask::Nothing),
            Key::Enter => if self.form_connect.focus == ConnectFocus::ConfigList {
                match self.form_connect.selected_host() {
                    Some(host) => (self.connecting_known(host, env, now), Ask::Nothing),
                    None => (self, Ask::Nothing),
                }
            } else {
                (self, Ask::Resolve)
            },
            _ => (
                AppView { form_connect: self.form_connect.after_key(key), ..self },
                Ask::Nothing,
            ),
        }
    }
}

impl App {
    fn on_connect_key(&mut self, key: Key, env: &Environment, now: i64) -> (ask: Ask)
        ensures
            (final(self)@, ask) == old(self)@.connect_key(key, env@, now),
    {
        match key {
            Key::Esc => {
                self.mode = Mode::List;
                self.status = None;
            },
            Key::Enter => {
                if self.form_connect.focus == ConnectFocus::ConfigList {
                    let chosen: Option<SshConfigHost> = match self.form_connect.selected_host() {
                        Some(host) => Some(host.clone()),
                        None => None,
                    };
                    if let Some(host) = chosen {
                        self.connect_from_config_host(&host, env, now);
                    }
                } else {
                    return Ask::Resolve;
                }
            },
            _ => {
                self.form_connect.on_key(key);
            },
        }
        Ask::Nothing
    }
}

// ---------- The form for a tunnel ----------

impl AppView {
    /// The state with the focus elsewhere in the form for a tunnel.
    pub open spec fn focusing(self, focus: FormTunnelFocus) -> AppView {
        AppView { form_tunnel: FormTunnelView { focus, ..self.form_tunnel }, ..self }
    }

    /// Whether there are any remote ports to choose from.
    pub open spec fn has_ports(self) -> bool {
        self.remote_ports.len() > 0
    }

    /// The part of the form after the one with the focus, in a circle that the list is part
    /// of where there is anything in it.
    pub open spec fn tunnel_focus_after(self) -> FormTunnelFocus {
        match self.form_tunnel.focus {
            FormTunnelFocus::LocalPort => FormTunnelFocus::RemoteTarget,
            FormTunnelFocus::RemoteTarget => if self.has_ports() {
                FormTunnelFocus::RemoteList
            } else {
                FormTunnelFocus::LocalPort
            },
            FormTunnelFocus::RemoteList => FormTunnelFocus::LocalPort,
        }
    }

    /// The part of the form before the one with the focus, in the same circle.
    pub open spec fn tunnel_focus_before(self) -> FormTunnelFocus {
        match self.form_tunnel.focus {
            FormTunnelFocus::LocalPort => if self.has_ports() {
                FormTunnelFocus::RemoteList
            } else {
                FormTunnelFocus::RemoteTarget
            },
            FormTunnelFocus::RemoteTarget => FormTunnelFocus::LocalPort,
            FormTunnelFocus::RemoteList => FormTunnelFocus::RemoteTarget,
        }
    }

    /// The state after a step down in the form: to the next part, or down the list.
    pub open spec fn tunnel_down(self) -> AppView {
        match self.form_tunnel.focus {
            FormTunnelFocus::LocalPort => self.focusing(FormTunnelFocus::RemoteTarget),
            FormTunnelFocus::RemoteTarget => if self.has_ports() {
                self.focusing(FormTunnelFocus::RemoteList)
            } else {
                self
            },
            FormTunnelFocus::RemoteList => if self.has_ports() {
                AppView {
                    ports_selected: entry_below(self.ports_selected, self.remote_ports.len()),
                    ..self
                }
            } else {
                self
            },
        }
    }

    /// The state after a step up in the form: up the list and out of it, or to the part
    /// before.
    pub open spec fn tunnel_up(self) -> AppView {
        match self.form_tunnel.focus {
            FormTunnelFocus::LocalPort => self,
            FormTunnelFocus::RemoteTarget => self.focusing(FormTunnelFocus::LocalPort),
            FormTunnelFocus::RemoteList => if self.ports_selected == 0 {
                self.focusing(FormTunnelFocus::RemoteTarget)
            } else {
                AppView { ports_selected: (self.ports_selected - 1) as usize, ..self }
            },
        }
    }

    /// What a character does in the form. Only digits go into the local port.
    pub open spec fn tunnel_typed(self, c: char) -> (AppView, Ask) {
        match self.form_tunnel.focus {
            FormTunnelFocus::LocalPort => if is_digit(c) {
                (
                    AppView {
                        form_tunnel: FormTunnelView {
                            local_port: self.form_tunnel.local_port.push(c),
                            ..self.form_tunnel
                        },
                        ..self
                    },
                    Ask::Nothing,
                )
            } else {
                (self, Ask::Nothing)
            },
            FormTunnelFocus::RemoteTarget => (
                AppView {
                    form_tunnel: FormTunnelView {
                        remote: self.form_tunnel.remote.push(c),
                        ..self.form_tunnel
                    },
                    ..self
                },
                Ask::Nothing,
            ),
            FormTunnelFocus::RemoteList => if c == 'j' {
                (self.tunnel_down(), Ask::Nothing)
            } else if c == 'k' {
                (self.tunnel_up(), Ask::Nothing)
            } else if c == 'r' || c == 'R' {
                (self.scanning(self.form_tunnel.session_id), Ask::Nothing)
            } else if c == ' ' && self.selected_port() is Some {
                (self, Ask::PortToFill(self.selected_port()->0))
            } else {
                (self, Ask::Nothing)
            },
        }
    }

    /// The state after the last character was taken back.
    pub open spec fn tunnel_erased(self) -> AppView {
        match self.form_tunnel.focus {
            FormTunnelFocus::LocalPort => AppView {
                form_tunnel: FormTunnelView {
                    local_port: shortened(self.form_tunnel.local_port),
                    ..self.form_tunnel
                },
                ..self
            },
            FormTunnelFocus::RemoteTarget => AppView {
                form_tunnel: FormTunnelView {
                    remote: shortened(self.form_tunnel.remote),
                    ..self.form_tunnel
                },
                ..self
            },
            FormTunnelFocus::RemoteList => self,
        }
    }

    /// What Enter does in the form. Without a local port it leads to where one can be found.
    pub open spec fn tunnel_entered(self, now: i64) -> (AppView, Ask) {
        match self.form_tunnel.focus {
            FormTunnelFocus::LocalPort => if trim(self.form_tunnel.local_port).len() > 0 {
                (self.submitting_tunnel(now), Ask::Nothing)
            } else if self.has_ports() {
                (self.focusing(FormTunnelFocus::RemoteList), Ask::Nothing)
            } else {
                (self.focusing(FormTunnelFocus::RemoteTarget), Ask::Nothing)
            },
            FormTunnelFocus::RemoteTarget => (self.submitting_tunnel(now), Ask::Nothing),
            FormTunnelFocus::RemoteList => match self.selected_port() {
                Some(port) => (self, Ask::PortToAdd(port)),
                None => (self, Ask::Nothing),
            },
        }
    }

    /// What a key does to the form for a tunnel.
    pub open spec fn tunnel_key(self, key: Key, now: i64) -> (AppView, Ask) {
        match key {
            Key::Esc => (self.silent().showing(Mode::List), Ask::Nothing),
            Key::Tab => (self.focusing(self.tunnel_focus_after()), Ask::Nothing),
            Key::BackTab => (self.focusing(self.tunnel_focus_before()), Ask::Nothing),
            Key::Down => (self.tunnel_down(), Ask::Nothing),
            Key::Up => (self.tunnel_up(), Ask::Nothing),
            Key::Enter => self.tunnel_entered(now),
            Key::Backspace => (self.tunnel_erased(), Ask::Nothing),
            Key::Char(c) => self.tunnel_typed(c),
            _ => (self, Ask::Nothing),
        }
    }
}

impl App {
    fn tunnel_down(&mut self)
        ensures
            final(self)@ == old(self)@.tunnel_down(),
    {
        let has_ports = self.remote_ports.len() > 0;
        match self.form_tunnel.focus {
            FormTunnelFocus::LocalPort => {
                self.form_tunnel.focus = FormTunnelFocus::RemoteTarget;
            },
            FormTunnelFocus::RemoteTarget => {
                if has_ports {
                    self.form_tunnel.focus = FormTunnelFocus::RemoteList;
                }
            },
            FormTunnelFocus::RemoteList => {
                if has_ports {
                    self.ports_selected = below(self.ports_selected, self.remote_ports.len());
                }
            },
        }
    }

    fn tunnel_up(&mut self)
        ensures
            final(self)@ == old(self)@.tunnel_up(),
    {
        match self.form_tunnel.focus {
            FormTunnelFocus::LocalPort => {},
            FormTunnelFocus::RemoteTarget => {
                self.form_tunnel.focus = FormTunnelFocus::LocalPort;
            },
            FormTunnelFocus::RemoteList => {
                if self.ports_selected == 0 {
                    self.form_tunnel.focus = FormTunnelFocus::RemoteTarget;
                } else {
                    self.ports_selected = self.ports_selected - 1;
                }
            },
        }
    }

    fn on_tunnel_char(&mut self, c: char) -> (ask: Ask)
        ensures
            (final(self)@, ask) == old(self)@.tunnel_typed(c),
    {
        match self.form_tunnel.focus {
            FormTunnelFocus::LocalPort => {
                if digit(c) {
                    self.form_tunnel.local_port.push(c);
                }
            },
            FormTunnelFocus::RemoteTarget => {
                self.form_tunnel.remote.push(c);
            },
            FormTunnelFocus::RemoteList => {
                if c == 'j' {
                    self.tunnel_down();
                } else if c == 'k' {
                    self.tunnel_up();
                } else if c == 'r' || c == 'R' {
                    let session_id = self.form_tunnel.session_id.clone();
                    self.refresh_ports(session_id.as_str());
                } else if c == ' ' {
                    if let Some(port) = self.selected_port() {
                        return Ask::PortToFill(port);
                    }
                }
            },
        }
        Ask::Nothing
    }

    fn on_tunnel_enter(&mut self, now: i64) -> (ask: Ask)
        ensures
            (final(self)@, ask) == old(self)@.tunnel_entered(now),
    {
        match self.form_tunnel.focus {
            FormTunnelFocus::LocalPort => {
                let local = trimmed_text(self.form_tunnel.local_port.as_str());
                if !local.as_str().is_empty() {
                    self.submit_tunnel_form(now);
                } else if self.remote_ports.len() > 0 {
                    self.form_tunnel.focus = FormTunnelFocus::RemoteList;
                } else {
                    self.form_tunnel.focus = FormTunnelFocus::RemoteTarget;
                }
            },
            FormTunnelFocus::RemoteTarget => {
                self.submit_tunnel_form(now);
            },
            FormTunnelFocus::RemoteList => {
                if let Some(port) = self.selected_port() {
                    return Ask::PortToAdd(port);
                }
            },
        }
        Ask::Nothing
    }

    fn on_tunnel_key(&mut self, key: Key, now: i64) -> (ask: Ask)
        ensures
            (final(self)@, ask) == old(self)@.tunnel_key(key, now),
    {
        let has_ports = self.remote_ports.len() > 0;
        match key {
            Key::Esc => {
                self.mode = Mode::List;
                self.status = None;
            },
            Key::Tab => {
                self.form_tunnel.focus = match self.form_tunnel.focus {
                    FormTunnelFocus::LocalPort => FormTunnelFocus::RemoteTarget,
                    FormTunnelFocus::RemoteTarget => if has_ports {
                        FormTunnelFocus::RemoteList
                    } else {
                        FormTunnelFocus::LocalPort
                    },
                    FormTunnelFocus::RemoteList => FormTunnelFocus::LocalPort,
                };
            },
            Key::BackTab => {
                self.form_tunnel.focus = match self.form_tunnel.focus {
                    FormTunnelFocus::LocalPort => if has_ports {
                        FormTunnelFocus::RemoteList
                    } else {
                        FormTunnelFocus::RemoteTarget
                    },
                    FormTunnelFocus::RemoteTarget => FormTunnelFocus::LocalPort,
                    FormTunnelFocus::RemoteList => FormTunnelFocus::RemoteTarget,
                };
            },
            Key::Down => {
                self.tunnel_down();
            },
            Key::Up => {
                self.tunnel_up();
            },
            Key::Enter => {
                return self.on_tunnel_enter(now);
            },
            Key::Backspace => {
                match self.form_tunnel.focus {
                    FormTunnelFocus::LocalPort => {
                        let _ = self.form_tunnel.local_port.pop();
                    },
                    FormTunnelFocus::RemoteTarget => {
                        let _ = self.form_tunnel.remote.pop();
                    },
                    FormTunnelFocus::RemoteList => {},
                }
            },
            Key::Char(c) => {
                return self.on_tunnel_char(c);
            },
            _ => {},
        }
        Ask::Nothing
    }
}

// ---------- The log ----------

impl AppView {
    /// What a key does to the log: scrolling, within the messages that there are, or leaving.
    pub open spec fn log_key(self, port: u16, scroll: usize, key: Key) -> AppView {
        let last: Option<int> = match self.log_len(port) {
            Some(len) => Some(
                if len > 0 {
                    len - 1
                } else {
                    0
                },
            ),
            None => None,
        };
        if key == Key::Char('q') || key == Key::Esc {
            self.showing(Mode::List)
        } else if (key == Key::Char('j') || key == Key::Down) && last is Some {
            self.showing(
                Mode::Log {
                    port,
                    scroll: if scroll < last->0 {
                        (scroll + 1) as usize
                    } else {
                        last->0 as usize
                    },
                },
            )
        } else if key == Key::Char('k') || key == Key::Up {
            self.showing(
                Mode::Log {
                    port,
                    scroll: if scroll > 0 {
                        (scroll - 1) as usize
                    } else {
                        0
                    },
                },
            )
        } else if key == Key::Char('g') {
            self.showing(Mode::Log { port, scroll: 0 })
        } else if key == Key::Char('G') && last is Some {
            self.showing(Mode::Log { port, scroll: last->0 as usize })
        } else {
            self.showing(Mode::Log { port, scroll })
        }
    }
}

impl App {
    fn on_log_key(&mut self, port: u16, scroll: usize, key: Key)
        ensures
            final(self)@ == old(self)@.log_key(port, scroll, key),
    {
        let mut new_scroll: usize = scroll;
        let len: Option<usize> = self.log_len(port);
        if key == Key::Char('q') || key == Key::Esc {
            self.mode = Mode::List;
            return;
        }
        if key == Key::Char('j') || key == Key::Down {
            if let Some(len) = len {
                let last: usize = len.saturating_sub(1);
                if scroll < last {
                    new_scroll = scroll + 1;
                } else {
                    new_scroll = last;
                }
            }
        } else if key == Key::Char('k') || key == Key::Up {
            new_scroll = scroll.saturating_sub(1);
        } else if key == Key::Char('g') {
            new_scroll = 0;
        } else if key == Key::Char('G') {
            if let Some(len) = len {
                new_scroll = len.saturating_sub(1);
            }
        }
        self.mode = Mode::Log { port, scroll: new_scroll };
    }
}

// ---------- All modes ----------

impl AppView {
    /// What a key does, and what has to be found out before it has the rest of its effect.
    pub open spec fn after_key(self, press: KeyPress, env: EnvironmentView, now: i64) -> (
        AppView,
        Ask,
    ) {
        if !press.pressed {
            (self, Ask::Nothing)
        } else {
            match self.mode {
                Mode::List => self.list_key(press.key, press.control, now),
                Mode::ConnectHost => self.connect_key(press.key, env, now),
                Mode::InputTunnel => self.tunnel_key(press.key, now),
                Mode::Log { port, scroll } => (
                    self.log_key(port, scroll, press.key),
                    Ask::Nothing,
                ),
            }
        }
    }
}

impl App {
    /// Takes in a key. Where the answer asks for something, the state is as before, and the
    /// effect comes with what was asked for: `open_connect_form`, `submit_connect_host`,
    /// `fill_form_from_port` or `add_tunnel_from_port`.
    pub fn on_key(&mut self, press: KeyPress, env: &Environment, now: i64) -> (ask: Ask)
        ensures
            (final(self)@, ask) == old(self)@.after_key(press, env@, now),
    {
        if !press.pressed {
            return Ask::Nothing;
        }
        match self.mode {
            Mode::List => self.on_list_key(press.key, press.control, now),
            Mode::ConnectHost => self.on_connect_key(press.key, env, now),
            Mode::InputTunnel => self.on_tunnel_key(press.key, now),
            Mode::Log { port, scroll } => {
                self.on_log_key(port, scroll, press.key);
                Ask::Nothing
            },
        }
    }
}

} // verus!
