//! The two forms: connecting to a host, and adding a tunnel.

use vstd::prelude::*;
use vstd::slice::slice_subrange;
use vstd::utf8::encode_utf8;

use crate::paths::plain_path;
use crate::paths::FilePath;
use crate::ssh_hosts::host_views;
use crate::target::AuthMethod;
use crate::target::AuthView;
use crate::target::SshConfigHost;
use crate::target::SshConfigHostView;
use crate::text::all_digits;
use crate::text::chars_of;
use crate::text::dec;
use crate::text::digits_only;
use crate::text::find;
use crate::text::find_char;
use crate::text::is_white;
use crate::text::lemma_dec_round_trip;
use crate::text::lemma_dec_value;
use crate::text::lemma_find;
use crate::text::parse_unsigned;
use crate::text::string_of;
use crate::text::trim;
use crate::text::trim_start;
use crate::text::trimmed;
use crate::text::unsigned;
use crate::text::white_run;
use crate::tunnel::write_pair;

verus! {

// ---------- Connecting to a host ----------

/// The kind of login that is chosen.
#[derive(Clone, Copy, PartialEq, Eq, Debug, Structural)]
pub enum AuthType {
    KeyFile,
    Password,
}

/// Which part of the form for a host has the focus.
#[derive(Clone, Copy, PartialEq, Eq, Debug, Structural)]
pub enum ConnectFocus {
    Target,
    AuthTypeToggle,
    AuthSecret,
    ConfigList,
}

/// The form for connecting to a host.
#[derive(Debug)]
pub struct FormConnectHost {
    pub focus: ConnectFocus,
    pub target: String,
    pub auth_type: AuthType,
    pub key_path: String,
    pub password: String,
    /// The hosts that the SSH configuration lists.
    pub config_hosts: Vec<SshConfigHost>,
    pub config_selected: usize,
}

/// The form for connecting to a host, as a mathematical value.
#[verifier::ext_equal]
pub struct FormConnectView {
    pub focus: ConnectFocus,
    pub target: Seq<char>,
    pub auth_type: AuthType,
    pub key_path: Seq<char>,
    pub password: Seq<char>,
    pub config_hosts: Seq<SshConfigHostView>,
    pub config_selected: usize,
}

impl View for FormConnectHost {
    type V = FormConnectView;

    open spec fn view(&self) -> FormConnectView {
        FormConnectView {
            focus: self.focus,
            target: self.target@,
            auth_type: self.auth_type,
            key_path: self.key_path@,
            password: self.password@,
            config_hosts: host_views(self.config_hosts@),
            config_selected: self.config_selected,
        }
    }
}

/// The form as it opens: nothing is filled in, and the listed hosts have the focus where
/// there are any.
pub open spec fn empty_connect_form(config_hosts: Seq<SshConfigHostView>) -> FormConnectView {
    FormConnectView {
        focus: if config_hosts.len() > 0 {
            ConnectFocus::ConfigList
        } else {
            ConnectFocus::Target
        },
        target: Seq::empty(),
        auth_type: AuthType::KeyFile,
        key_path: Seq::empty(),
        password: Seq::empty(),
        config_hosts,
        config_selected: 0,
    }
}

impl FormConnectView {
    /// The login that the form asks for, where it asks for one.
    pub open spec fn auth(self) -> Option<AuthView> {
        match self.auth_type {
            AuthType::KeyFile => if trim(self.key_path).len() == 0 {
                None
            } else {
                Some(AuthView::KeyFile(plain_path(encode_utf8(trim(self.key_path)))))
            },
            AuthType::Password => Some(AuthView::Password(self.password)),
        }
    }
}

/// `s` without the white characters at either end.
pub fn trimmed_text(s: &str) -> (r: String)
    ensures
        r@ == trim(s@),
{
    let chars = chars_of(s);
    string_of(trimmed(chars.as_slice()))
}

impl FormConnectHost {
    /// The form as it opens.
    pub fn new(config_hosts: Vec<SshConfigHost>) -> (form: FormConnectHost)
        ensures
            form@ == empty_connect_form(host_views(config_hosts@)),
    {
        let focus = if config_hosts.len() > 0 {
            ConnectFocus::ConfigList
        } else {
            ConnectFocus::Target
        };
        let form = FormConnectHost {
            focus,
            target: String::new(),
            auth_type: AuthType::KeyFile,
            key_path: String::new(),
            password: String::new(),
            config_hosts,
            config_selected: 0,
        };
        assert(form@ =~= empty_connect_form(host_views(config_hosts@)));
        form
    }

    /// The login that the form asks for, where it asks for one.
    pub fn auth(&self) -> (r: Option<AuthMethod>)
        ensures
            match (r, self@.auth()) {
                (Some(auth), Some(expected)) => auth@ == expected,
                (None, None) => true,
                _ => false,
            },
    {
        match self.auth_type {
            AuthType::KeyFile => {
                let path = trimmed_text(self.key_path.as_str());
                if path.as_str().is_empty() {
                    None
                } else {
                    Some(AuthMethod::KeyFile(FilePath::of_text(path.as_str())))
                }
            },
            AuthType::Password => Some(AuthMethod::Password(self.password.clone())),
        }
    }
}

// ---------- Keys ----------

/// A key of the keyboard.
#[derive(Clone, Copy, PartialEq, Eq, Debug, Structural)]
pub enum Key {
    Char(char),
    Esc,
    Enter,
    Tab,
    BackTab,
    Backspace,
    Delete,
    Left,
    Right,
    Up,
    Down,
    Other,
}

/// A text without its last character.
pub open spec fn shortened(s: Seq<char>) -> Seq<char> {
    if s.len() > 0 {
        s.drop_last()
    } else {
        s
    }
}

/// The entry below the selected one in a list that is not empty, and the last one at the end.
pub open spec fn entry_below(selected: usize, len: nat) -> usize {
    if selected + 1 < len {
        (selected + 1) as usize
    } else {
        (len - 1) as usize
    }
}

/// The entry below the selected one in a list that is not empty.
pub fn below(selected: usize, len: usize) -> (r: usize)
    requires
        len > 0,
    ensures
        r == entry_below(selected, len as nat),
{
    if selected < len - 1 {
        selected + 1
    } else {
        len - 1
    }
}

impl AuthType {
    /// The other kind of login.
    pub open spec fn flipped(self) -> AuthType {
        match self {
            AuthType::KeyFile => AuthType::Password,
            AuthType::Password => AuthType::KeyFile,
        }
    }

    /// The other kind of login.
    pub fn other(self) -> (r: AuthType)
        ensures
            r == self.flipped(),
    {
        match self {
            AuthType::KeyFile => AuthType::Password,
            AuthType::Password => AuthType::KeyFile,
        }
    }
}

impl FormConnectView {
    /// Whether the SSH configuration lists any hosts.
    pub open spec fn lists(self) -> bool {
        self.config_hosts.len() > 0
    }

    /// The listed host that is selected.
    pub open spec fn selected_host(self) -> Option<SshConfigHostView> {
        if self.config_selected < self.config_hosts.len() {
            Some(self.config_hosts[self.config_selected as int])
        } else {
            None
        }
    }

    /// The part after the one with the focus, in a circle that the list is part of where
    /// there is anything in it.
    pub open spec fn focus_after(self) -> ConnectFocus {
        match self.focus {
            ConnectFocus::Target => ConnectFocus::AuthTypeToggle,
            ConnectFocus::AuthTypeToggle => ConnectFocus::AuthSecret,
            ConnectFocus::AuthSecret => if self.lists() {
                ConnectFocus::ConfigList
            } else {
                ConnectFocus::Target
            },
            ConnectFocus::ConfigList => ConnectFocus::Target,
        }
    }

    /// The part before the one with the focus, in the same circle.
    pub open spec fn focus_before(self) -> ConnectFocus {
        match self.focus {
            ConnectFocus::Target => if self.lists() {
                ConnectFocus::ConfigList
            } else {
                ConnectFocus::AuthSecret
            },
            ConnectFocus::AuthTypeToggle => ConnectFocus::Target,
            ConnectFocus::AuthSecret => ConnectFocus::AuthTypeToggle,
            ConnectFocus::ConfigList => ConnectFocus::AuthSecret,
        }
    }

    /// The form after a step down: to the next part, or down the list.
    pub open spec fn down(self) -> FormConnectView {
        match self.focus {
            ConnectFocus::Target => FormConnectView {
                focus: ConnectFocus::AuthTypeToggle,
                ..self
            },
            ConnectFocus::AuthTypeToggle => FormConnectView {
                focus: ConnectFocus::AuthSecret,
                ..self
            },
            ConnectFocus::AuthSecret => if self.lists() {
                FormConnectView { focus: ConnectFocus::ConfigList, ..self }
            } else {
                self
            },
            ConnectFocus::ConfigList => if self.lists() {
                FormConnectView {
                    config_selected: entry_below(self.config_selected, self.config_hosts.len()),
                    ..self
                }
            } else {
                self
            },
        }
    }

    /// The form after a step up: up the list and out of it, or to the part before.
    pub open spec fn up(self) -> FormConnectView {
        match self.focus {
            ConnectFocus::Target => self,
            ConnectFocus::AuthTypeToggle => FormConnectView {
                focus: ConnectFocus::Target,
                ..self
            },
            ConnectFocus::AuthSecret => FormConnectView {
                focus: ConnectFocus::AuthTypeToggle,
                ..self
            },
            ConnectFocus::ConfigList => if self.config_selected == 0 {
                FormConnectView { focus: ConnectFocus::AuthSecret, ..self }
            } else {
                FormConnectView { config_selected: (self.config_selected - 1) as usize, ..self }
            },
        }
    }

    /// The form after a character was typed.
    pub open spec fn typed(self, c: char) -> FormConnectView {
        match self.focus {
            ConnectFocus::Target => FormConnectView { target: self.target.push(c), ..self },
            ConnectFocus::AuthTypeToggle => if c == ' ' {
                FormConnectView { auth_type: self.auth_type.flipped(), ..self }
            } else if c == '1' || c == 'k' || c == 'K' {
                FormConnectView { auth_type: AuthType::KeyFile, ..self }
            } else if c == '2' || c == 'p' || c == 'P' {
                FormConnectView { auth_type: AuthType::Password, ..self }
            } else {
                self
            },
            ConnectFocus::AuthSecret => if self.auth_type == AuthType::Password {
                FormConnectView { password: self.password.push(c), ..self }
            } else if c == ' ' {
                self
            } else {
                FormConnectView { key_path: self.key_path.push(c), ..self }
            },
            ConnectFocus::ConfigList => if c == 'j' {
                self.down()
            } else if c == 'k' {
                self.up()
            } else if c == ' ' && self.selected_host() is Some {
                FormConnectView {
                    target: self.selected_host()->0.alias,
                    auth_type: AuthType::KeyFile,
                    focus: ConnectFocus::Target,
                    ..self
                }
            } else {
                self
            },
        }
    }

    /// The form after the last character was taken back.
    pub open spec fn erased(self) -> FormConnectView {
        match self.focus {
            ConnectFocus::Target => FormConnectView { target: shortened(self.target), ..self },
            ConnectFocus::AuthSecret => match self.auth_type {
                AuthType::KeyFile => FormConnectView {
                    key_path: shortened(self.key_path),
                    ..self
                },
                AuthType::Password => FormConnectView {
                    password: shortened(self.password),
                    ..self
                },
            },
            _ => self,
        }
    }

    /// The form after a key that neither submits nor leaves it.
    pub open spec fn after_key(self, key: Key) -> FormConnectView {
        match key {
            Key::Tab => FormConnectView { focus: self.focus_after(), ..self },
            Key::BackTab => FormConnectView { focus: self.focus_before(), ..self },
            Key::Down => self.down(),
            Key::Up => self.up(),
            Key::Left | Key::Right => if self.focus == ConnectFocus::AuthTypeToggle {
                FormConnectView { auth_type: self.auth_type.flipped(), ..self }
            } else {
                self
            },
            Key::Char(c) => self.typed(c),
            Key::Backspace => self.erased(),
            _ => self,
        }
    }
}

impl FormConnectHost {
    fn lists(&self) -> (r: bool)
        ensures
            r == self@.lists(),
    {
        self.config_hosts.len() > 0
    }

    /// The listed host that is selected.
    pub fn selected_host(&self) -> (r: Option<&SshConfigHost>)
        ensures
            match r {
                Some(host) => self@.selected_host() == Some(host@),
                None => self@.selected_host() is None,
            },
    {
        if self.config_selected < self.config_hosts.len() {
            let i: usize = self.config_selected;
            assert(self@.config_hosts[i as int] == self.config_hosts@[i as int]@);
            Some(&self.config_hosts[i])
        } else {
            None
        }
    }

    fn move_down(&mut self)
        ensures
            final(self)@ == old(self)@.down(),
    {
        match self.focus {
            ConnectFocus::Target => {
                self.focus = ConnectFocus::AuthTypeToggle;
            },
            ConnectFocus::AuthTypeToggle => {
                self.focus = ConnectFocus::AuthSecret;
            },
            ConnectFocus::AuthSecret => {
                if self.lists() {
                    self.focus = ConnectFocus::ConfigList;
                }
            },
            ConnectFocus::ConfigList => {
                if self.lists() {
                    self.config_selected = below(self.config_selected, self.config_hosts.len());
                }
            },
        }
    }

    fn move_up(&mut self)
        ensures
            final(self)@ == old(self)@.up(),
    {
        match self.focus {
            ConnectFocus::Target => {},
            ConnectFocus::AuthTypeToggle => {
                self.focus = ConnectFocus::Target;
            },
            ConnectFocus::AuthSecret => {
                self.focus = ConnectFocus::AuthTypeToggle;
            },
            ConnectFocus::ConfigList => {
                if self.config_selected == 0 {
                    self.focus = ConnectFocus::AuthSecret;
                } else {
                    self.config_selected = self.config_selected - 1;
                }
            },
        }
    }

    fn type_char(&mut self, c: char)
        ensures
            final(self)@ == old(self)@.typed(c),
    {
        match self.focus {
            ConnectFocus::Target => {
                self.target.push(c);
            },
            ConnectFocus::AuthTypeToggle => {
                if c == ' ' {
                    self.auth_type = self.auth_type.other();
                } else if c == '1' || c == 'k' || c == 'K' {
                    self.auth_type = AuthType::KeyFile;
                } else if c == '2' || c == 'p' || c == 'P' {
                    self.auth_type = AuthType::Password;
                }
            },
            ConnectFocus::AuthSecret => {
                if self.auth_type == AuthType::Password {
                    self.password.push(c);
                } else if c != ' ' {
                    self.key_path.push(c);
                }
            },
            ConnectFocus::ConfigList => {
                if c == 'j' {
                    self.move_down();
                } else if c == 'k' {
                    self.move_up();
                } else if c == ' ' {
                    let alias: Option<String> = match self.selected_host() {
                        Some(host) => Some(host.alias.clone()),
                        None => None,
                    };
                    if let Some(alias) = alias {
                        self.target = alias;
                        self.auth_type = AuthType::KeyFile;
                        self.focus = ConnectFocus::Target;
                    }
                }
            },
        }
    }

    fn erase_char(&mut self)
        ensures
            final(self)@ == old(self)@.erased(),
    {
        match self.focus {
            ConnectFocus::Target => {
                let _ = self.target.pop();
            },
            ConnectFocus::AuthSecret => {
                match self.auth_type {
                    AuthType::KeyFile => {
                        let _ = self.key_path.pop();
                    },
                    AuthType::Password => {
                        let _ = self.password.pop();
                    },
                }
            },
            _ => {},
        }
    }

    /// Takes in a key that neither submits the form nor leaves it.
    pub fn on_key(&mut self, key: Key)
        ensures
            final(self)@ == old(self)@.after_key(key),
    {
        match key {
            Key::Tab => {
                self.focus = match self.focus {
                    ConnectFocus::Target => ConnectFocus::AuthTypeToggle,
                    ConnectFocus::AuthTypeToggle => ConnectFocus::AuthSecret,
                    ConnectFocus::AuthSecret => if self.lists() {
                        ConnectFocus::ConfigList
                    } else {
                        ConnectFocus::Target
                    },
                    ConnectFocus::ConfigList => ConnectFocus::Target,
                };
            },
            Key::BackTab => {
                self.focus = match self.focus {
                    ConnectFocus::Target => if self.lists() {
                        ConnectFocus::ConfigList
                    } else {
                        ConnectFocus::AuthSecret
                    },
                    ConnectFocus::AuthTypeToggle => ConnectFocus::Target,
                    ConnectFocus::AuthSecret => ConnectFocus::AuthTypeToggle,
                    ConnectFocus::ConfigList => ConnectFocus::AuthSecret,
                };
            },
            Key::Down => {
                self.move_down();
            },
            Key::Up => {
                self.move_up();
            },
            Key::Left | Key::Right => {
                if self.focus == ConnectFocus::AuthTypeToggle {
                    self.auth_type = self.auth_type.other();
                }
            },
            Key::Char(c) => {
                self.type_char(c);
            },
            Key::Backspace => {
                self.erase_char();
            },
            _ => {},
        }
    }
}

// ---------- Adding a tunnel ----------

/// Which part of the form for a tunnel has the focus.
#[derive(Clone, Copy, PartialEq, Eq, Debug, Structural)]
pub enum FormTunnelFocus {
    LocalPort,
    RemoteTarget,
    RemoteList,
}

/// The form for adding a tunnel.
#[derive(Debug)]
pub struct FormTunnel {
    pub session_id: String,
    pub focus: FormTunnelFocus,
    pub local_port: String,
    pub remote: String,
}

/// The form for adding a tunnel, as a mathematical value.
#[verifier::ext_equal]
pub struct FormTunnelView {
    pub session_id: Seq<char>,
    pub focus: FormTunnelFocus,
    pub local_port: Seq<char>,
    pub remote: Seq<char>,
}

impl View for FormTunnel {
    type V = FormTunnelView;

    open spec fn view(&self) -> FormTunnelView {
        FormTunnelView {
            session_id: self.session_id@,
            focus: self.focus,
            local_port: self.local_port@,
            remote: self.remote@,
        }
    }
}

/// The form as it opens.
pub open spec fn empty_tunnel_form(session_id: Seq<char>) -> FormTunnelView {
    FormTunnelView {
        session_id,
        focus: FormTunnelFocus::LocalPort,
        local_port: Seq::empty(),
        remote: Seq::empty(),
    }
}

/// The remote end that a text names: a host and a port, or a port of the remote host itself,
/// which is also meant, with the port `local_port`, where the text is blank.
pub open spec fn remote_end(text: Seq<char>, local_port: u16) -> Result<
    (Seq<char>, u32),
    Seq<char>,
> {
    let remote = trim(text);
    let colon = find(remote, ':');
    if remote.len() == 0 {
        Ok(("localhost"@, local_port as u32))
    } else if all_digits(remote) {
        match unsigned(remote, u32::MAX as nat) {
            Some(port) => Ok(("localhost"@, port as u32)),
            None => Err("远端端口格式错误："@ + remote),
        }
    } else if colon == remote.len() {
        Err("远端目标格式应为 host:port 或只填端口："@ + remote)
    } else if trim(remote.take(colon)).len() == 0 {
        Err("远端 host 不能为空"@)
    } else {
        match unsigned(trim(remote.skip(colon + 1)), u32::MAX as nat) {
            Some(port) => Ok((trim(remote.take(colon)), port as u32)),
            None => Err("远端端口格式错误："@ + remote.skip(colon + 1)),
        }
    }
}

impl FormTunnelView {
    /// The tunnel that the form describes: local port, remote host and remote port.
    pub open spec fn parsed(self) -> Result<(u16, Seq<char>, u32), Seq<char>> {
        match unsigned(trim(self.local_port), u16::MAX as nat) {
            Some(local_port) => match remote_end(self.remote, local_port as u16) {
                Ok((host, port)) => Ok((local_port as u16, host, port)),
                Err(message) => Err(message),
            },
            None => Err("本地端口格式错误："@ + trim(self.local_port)),
        }
    }
}

/// The remote end that a text names.
fn parse_remote(text: &str, local_port: u16) -> (r: Result<(String, u32), String>)
    ensures
        match (r, remote_end(text@, local_port)) {
            (Ok((host, port)), Ok((expected_host, expected_port))) => {
                &&& host@ == expected_host
                &&& port == expected_port
            },
            (Err(message), Err(expected)) => message@ == expected,
            _ => false,
        },
{
    let chars = chars_of(text);
    let remote: &[char] = trimmed(chars.as_slice());
    let len: usize = remote.len();
    if len == 0 {
        return Ok(("localhost".to_string(), local_port as u32));
    }
    if digits_only(remote) {
        return match parse_unsigned(remote, u32::MAX) {
            Some(port) => Ok(("localhost".to_string(), port)),
            None => {
                let shown = string_of(remote);
                Err(write_pair("远端端口格式错误：", shown.as_str()))
            },
        };
    }
    let colon: usize = find_char(remote, ':');
    if colon == len {
        let shown = string_of(remote);
        return Err(write_pair("远端目标格式应为 host:port 或只填端口：", shown.as_str()));
    }
    assert(remote@.subrange(0, colon as int) == remote@.take(colon as int));
    assert(remote@.subrange(colon + 1, remote@.len() as int) == remote@.skip(colon + 1));
    let host: &[char] = trimmed(slice_subrange(remote, 0, colon));
    if host.len() == 0 {
        return Err("远端 host 不能为空".to_string());
    }
    let digits: &[char] = slice_subrange(remote, colon + 1, len);
    match parse_unsigned(trimmed(digits), u32::MAX) {
        Some(port) => Ok((string_of(host), port)),
        None => {
            let shown = string_of(digits);
            Err(write_pair("远端端口格式错误：", shown.as_str()))
        },
    }
}

impl FormTunnel {
    /// The form as it opens.
    pub fn new(session_id: String) -> (form: FormTunnel)
        ensures
            form@ == empty_tunnel_form(session_id@),
    {
        let form = FormTunnel {
            session_id,
            focus: FormTunnelFocus::LocalPort,
            local_port: String::new(),
            remote: String::new(),
        };
        assert(form@ =~= empty_tunnel_form(session_id@));
        form
    }

    /// The tunnel that the form describes: local port, remote host and remote port.
    pub fn parse(&self) -> (r: Result<(u16, String, u32), String>)
        ensures
            match (r, self@.parsed()) {
                (Ok((local, host, port)), Ok((expected_local, expected_host, expected_port))) => {
                    &&& local == expected_local
                    &&& host@ == expected_host
                    &&& port == expected_port
                },
                (Err(message), Err(expected)) => message@ == expected,
                _ => false,
            },
    {
        let chars = chars_of(self.local_port.as_str());
        let local: &[char] = trimmed(chars.as_slice());
        match parse_unsigned(local, 65535) {
            Some(n) => {
                let local_port: u16 = n as u16;
                match parse_remote(self.remote.as_str(), local_port) {
                    Ok((host, port)) => Ok((local_port, host, port)),
                    Err(message) => Err(message),
                }
            },
            None => {
                let shown = string_of(local);
                Err(write_pair("本地端口格式错误：", shown.as_str()))
            },
        }
    }
}

// ---------- Laws ----------

/// A text without white characters at its ends is not shortened.
proof fn lemma_trim_nothing(s: Seq<char>)
    requires
        s.len() > 0,
        !is_white(s[0]),
        !is_white(s.last()),
    ensures
        trim(s) == s,
{
    assert(white_run(s) == 0);
    assert(trim_start(s) =~= s);
}

/// A form that names a port of the remote host as a listed port is taken over describes the
/// tunnel from that local port to that remote port.
pub proof fn lemma_filled_form_parses(form: FormTunnelView, local: u16, port: u16)
    requires
        form.local_port == dec(local as nat),
        form.remote == "localhost:"@ + dec(port as nat),
    ensures
        form.parsed() == Ok::<(u16, Seq<char>, u32), Seq<char>>(
            (local, "localhost"@, port as u32),
        ),
{
    reveal_strlit("localhost:");
    reveal_strlit("localhost");
    lemma_dec_value(local as nat);
    lemma_dec_value(port as nat);
    lemma_dec_round_trip(local as nat, u16::MAX as nat);
    lemma_dec_round_trip(port as nat, u32::MAX as nat);
    lemma_trim_nothing(dec(local as nat));
    lemma_trim_nothing(dec(port as nat));
    let remote = form.remote;
    assert(remote.last() == dec(port as nat).last());
    lemma_trim_nothing(remote);
    assert(!all_digits(remote)) by {
        assert(remote[0] == 'l');
    }
    assert forall|i: int| 0 <= i < 9 implies remote[i] != ':' by {}
    lemma_find(remote, ':', 9);
    assert(remote.take(9) =~= "localhost"@);
    assert(remote.skip(10) =~= dec(port as nat));
    lemma_trim_nothing("localhost"@);
}

} // verus!
