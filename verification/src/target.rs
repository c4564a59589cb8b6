//! Hosts to connect to: what a target string and the SSH configuration say of one.

use std::path::PathBuf;

use ssh2_config::ParseRule;
use ssh2_config::SshConfig;
use vstd::prelude::*;
use vstd::slice::slice_subrange;

use crate::paths::byte_views;
use crate::paths::copy_bytes;
use crate::paths::copy_path;
use crate::paths::copy_text;
use crate::paths::default_key;
use crate::paths::default_key_path;
use crate::paths::expand_tilde;
use crate::paths::lent_path_bytes;
use crate::paths::login_name;
use crate::paths::path_view;
use crate::paths::plain_path;
use crate::paths::text_of;
use crate::paths::user_name;
use crate::paths::Environment;
use crate::paths::EnvironmentView;
use crate::paths::FilePath;
use crate::paths::FilePathView;
use crate::text::all_digits;
use crate::text::chars_of;
use crate::text::dec;
use crate::text::decimal;
use crate::text::digits_only;
use crate::text::find;
use crate::text::find_char;
use crate::text::is_digit;
use crate::text::lemma_dec_round_trip;
use crate::text::lemma_dec_value;
use crate::text::lemma_find;
use crate::text::lemma_rfind;
use crate::text::parse_unsigned;
use crate::text::rfind;
use crate::text::rfind_char;
use crate::text::string_of;
use crate::text::unsigned;

verus! {

// ---------- Connection parameters ----------

/// How to log in: with a private key from a file, or with a password.
#[derive(Debug, PartialEq, Eq)]
pub enum AuthMethod {
    KeyFile(FilePath),
    Password(String),
}

/// A way to log in, as a mathematical value.
#[verifier::ext_equal]
pub enum AuthView {
    KeyFile(FilePathView),
    Password(Seq<char>),
}

impl View for AuthMethod {
    type V = AuthView;

    open spec fn view(&self) -> AuthView {
        match self {
            AuthMethod::KeyFile(path) => AuthView::KeyFile(path@),
            AuthMethod::Password(password) => AuthView::Password(password@),
        }
    }
}

impl Clone for AuthMethod {
    fn clone(&self) -> (r: AuthMethod)
        ensures
            r@ == self@,
    {
        match self {
            AuthMethod::KeyFile(path) => AuthMethod::KeyFile(path.clone()),
            AuthMethod::Password(password) => AuthMethod::Password(password.clone()),
        }
    }
}

/// What an SSH connection is made with.
#[derive(Debug, PartialEq, Eq)]
pub struct ConnectParams {
    pub alias: Option<String>,
    pub user: String,
    pub host: String,
    pub ssh_port: u16,
    pub auth: AuthMethod,
    pub check_host_key: bool,
}

/// Connection parameters as a mathematical value.
#[verifier::ext_equal]
pub struct ConnectParamsView {
    pub alias: Option<Seq<char>>,
    pub user: Seq<char>,
    pub host: Seq<char>,
    pub ssh_port: u16,
    pub auth: AuthView,
    pub check_host_key: bool,
}

impl View for ConnectParams {
    type V = ConnectParamsView;

    open spec fn view(&self) -> ConnectParamsView {
        ConnectParamsView {
            alias: text_of(self.alias),
            user: self.user@,
            host: self.host@,
            ssh_port: self.ssh_port,
            auth: self.auth@,
            check_host_key: self.check_host_key,
        }
    }
}

impl Clone for ConnectParams {
    fn clone(&self) -> (r: ConnectParams)
        ensures
            r@ == self@,
    {
        ConnectParams {
            alias: copy_text(&self.alias),
            user: self.user.clone(),
            host: self.host.clone(),
            ssh_port: self.ssh_port,
            auth: self.auth.clone(),
            check_host_key: self.check_host_key,
        }
    }
}

/// `user@host:port`.
pub open spec fn address(user: Seq<char>, host: Seq<char>, port: u16) -> Seq<char> {
    user + "@"@ + host + ":"@ + dec(port as nat)
}

/// `user@host:port`.
pub fn write_address(user: &str, host: &str, port: u16) -> (s: String)
    ensures
        s@ == address(user@, host@, port),
{
    let number = decimal(port as u64);
    let mut s = user.to_string();
    s.append("@");
    s.append(host);
    s.append(":");
    s.append(number.as_str());
    s
}

impl ConnectParamsView {
    /// The name under which a host is shown and found again.
    pub open spec fn display_name(self) -> Seq<char> {
        match self.alias {
            Some(alias) => alias,
            None => address(self.user, self.host, self.ssh_port),
        }
    }
}

impl ConnectParams {
    /// The name under which the host is shown and found again: its alias, or
    /// `user@host:port` where it has none.
    pub fn display_name(&self) -> (name: String)
        ensures
            name@ == self@.display_name(),
    {
        if let Some(alias) = &self.alias {
            alias.clone()
        } else {
            write_address(self.user.as_str(), self.host.as_str(), self.ssh_port)
        }
    }
}

/// The login that the command line asks for: a password goes before a key file.
pub fn command_line_auth(password: Option<String>, key: Option<FilePath>) -> (r: Option<
    AuthMethod,
>)
    ensures
        auth_view(r) == match (password, key) {
            (Some(password), _) => Some(AuthView::Password(password@)),
            (None, Some(path)) => Some(AuthView::KeyFile(path@)),
            (None, None) => None,
        },
{
    match password {
        Some(password) => Some(AuthMethod::Password(password)),
        None => match key {
            Some(path) => Some(AuthMethod::KeyFile(path)),
            None => None,
        },
    }
}

// ---------- What the SSH configuration says of one host ----------

/// What the SSH configuration says of one host.
#[derive(Debug, PartialEq, Eq)]
pub struct HostSettings {
    pub host_name: Option<String>,
    pub user: Option<String>,
    pub port: Option<u16>,
    /// In the encoding of the machine.
    pub identity_files: Option<Vec<Vec<u8>>>,
}

/// The settings of a host as a mathematical value.
#[verifier::ext_equal]
pub struct HostSettingsView {
    pub host_name: Option<Seq<char>>,
    pub user: Option<Seq<char>>,
    pub port: Option<u16>,
    pub identity_files: Option<Seq<Seq<u8>>>,
}

/// The texts of a list of strings.
pub open spec fn string_views(v: Seq<String>) -> Seq<Seq<char>> {
    v.map_values(|s: String| s@)
}

/// A copy of a list of strings.
pub fn copy_strings(v: &Vec<String>) -> (r: Vec<String>)
    ensures
        string_views(r@) == string_views(v@),
{
    let mut r: Vec<String> = Vec::new();
    for i in 0..v.len()
        invariant
            r@.len() == i,
            forall|k: int| 0 <= k < i ==> #[trigger] r@[k]@ == v@[k]@,
    {
        r.push(v[i].clone());
    }
    assert(string_views(r@) =~= string_views(v@));
    r
}

impl View for HostSettings {
    type V = HostSettingsView;

    open spec fn view(&self) -> HostSettingsView {
        HostSettingsView {
            host_name: text_of(self.host_name),
            user: text_of(self.user),
            port: self.port,
            identity_files: match self.identity_files {
                Some(files) => Some(byte_views(files@)),
                None => None,
            },
        }
    }
}

impl HostSettingsView {
    /// The first key file that the settings name.
    pub open spec fn identity(self) -> Option<Seq<u8>> {
        match self.identity_files {
            Some(files) => if files.len() > 0 {
                Some(files[0])
            } else {
                None
            },
            None => None,
        }
    }
}

impl HostSettings {
    /// The first key file that the settings name.
    pub(crate) fn first_identity(&self) -> (r: Option<&Vec<u8>>)
        ensures
            match r {
                Some(file) => self@.identity() == Some(file@),
                None => self@.identity() is None,
            },
    {
        match &self.identity_files {
            Some(files) => if files.len() > 0 {
                assert(byte_views(files@)[0] == files@[0]@);
                Some(&files[0])
            } else {
                None
            },
            None => None,
        }
    }
}

/// A parsed SSH configuration of `ssh2_config`.
#[verifier::external_type_specification]
#[verifier::external_body]
pub struct ExSshConfig(SshConfig);

/// What a parsed SSH configuration says, host by host.
pub uninterp spec fn host_table(config: SshConfig) -> Map<Seq<char>, HostSettingsView>;

/// An ASCII letter in lower case, and any other byte as it is.
pub open spec fn lower(b: u8) -> int {
    if 'A' as int <= b <= 'Z' as int {
        b + 32
    } else {
        b as int
    }
}

/// Whether the bytes are the word, which is in lower case, in whatever case.
pub open spec fn same_word(bytes: Seq<u8>, word: Seq<char>) -> bool {
    &&& bytes.len() == word.len()
    &&& forall|k: int| 0 <= k < word.len() ==> lower(#[trigger] bytes[k]) == word[k] as int
}

/// Whether a byte is ASCII white space.
pub open spec fn is_blank(b: u8) -> bool {
    9 <= b <= 13 || b == 32
}

/// Whether nothing but white space stands between the start of a line and that place.
pub open spec fn begins_line(text: Seq<u8>, i: int) -> bool {
    exists|s: int| #[trigger] blank_from(text, s, i) && (s == 0 || text[s - 1] == '\n' as u8)
}

/// Whether nothing but white space stands between the two places.
pub open spec fn blank_from(text: Seq<u8>, s: int, i: int) -> bool {
    0 <= s <= i && forall|k: int| s <= k < i ==> is_blank(#[trigger] text[k])
}

/// Whether the field of a line, its first word, stands from `i` to `j`. White space or an
/// equals sign ends it.
pub open spec fn field_at(text: Seq<u8>, i: int, j: int) -> bool {
    &&& 0 <= i < j <= text.len()
    &&& begins_line(text, i)
    &&& forall|k: int| i <= k < j ==> !is_blank(#[trigger] text[k]) && text[k] != '=' as u8
    &&& j == text.len() || is_blank(text[j]) || text[j] == '=' as u8
}

/// Whether ten decimal digits in a row stand at that place.
pub open spec fn ten_digits_at(text: Seq<u8>, k: int) -> bool {
    &&& 0 <= k
    &&& k + 10 <= text.len()
    &&& forall|d: int| k <= d < k + 10 ==> '0' as u8 <= #[trigger] text[d] <= '9' as u8
}

/// Whether ten decimal digits in a row stand behind `j` in the same line.
pub open spec fn long_number_behind(text: Seq<u8>, j: int) -> bool {
    exists|k: int|
        #[trigger] ten_digits_at(text, k) && j <= k && forall|m: int|
            j <= m < k ==> #[trigger] text[m] != '\n' as u8
}

/// Whether a field has a number for its value that is as wide as the machine can hold.
pub open spec fn counts(field: Seq<u8>) -> bool {
    ||| same_word(field, "connectionattempts"@)
    ||| same_word(field, "connecttimeout"@)
    ||| same_word(field, "serveraliveinterval"@)
}

/// Whether a field is one that reads other files.
pub open spec fn reads_files(field: Seq<u8>) -> bool {
    same_word(field, seq!['i', 'n', 'c', 'l', 'u', 'd', 'e'])
}

/// Whether `yes`, `no`, `true` or `false` stands behind `j` in the same line as a word of its
/// own, after white space or an equals sign.
pub open spec fn switch_behind(text: Seq<u8>, j: int) -> bool {
    exists|a: int, b: int| #[trigger] switch_at(text, j, a, b)
}

/// Whether that word stands from `a` to `b`.
pub open spec fn switch_at(text: Seq<u8>, j: int, a: int, b: int) -> bool {
    let word = text.subrange(a, b);
    &&& j < a < b <= text.len()
    &&& forall|k: int| j <= k < a ==> #[trigger] text[k] == 32 || text[k] == 9 || text[k] == '=' as u8
    &&& forall|k: int, m: int|
        j <= k < m < a ==> !(#[trigger] text[k] == '=' as u8 && #[trigger] text[m] == '=' as u8)
    &&& same_word(word, "yes"@) || same_word(word, "no"@) || same_word(word, "true"@) || same_word(
        word,
        "false"@,
    )
    &&& b == text.len() || is_blank(text[b])
}

/// Whether a line, whose field stands from `i` to `j`, means the same on every machine and
/// whatever files there are: it is a comment, or its field is an ASCII word that reads no
/// files, has a value that is right where the field is known to some systems only, and has no
/// number that only some machines hold.
pub open spec fn settled_line(text: Seq<u8>, i: int, j: int) -> bool {
    let field = text.subrange(i, j);
    text[i] == '#' as u8 || {
        &&& forall|k: int| 0 <= k < field.len() ==> #[trigger] field[k] < 0x80
        &&& !reads_files(field)
        &&& same_word(field, "usekeychain"@) ==> switch_behind(text, j)
        &&& counts(field) ==> !long_number_behind(text, j)
    }
}

/// Whether the meaning of a configuration text rests on nothing but itself and the home
/// directory.
pub open spec fn self_contained(text: Seq<u8>) -> bool {
    forall|i: int, j: int| #[trigger] field_at(text, i, j) ==> settled_line(text, i, j)
}

/// What `SshConfig::parse` reads in a text that is self-contained, host by host, with the key
/// files as they are written there; or nothing where it refuses the text whatever the home
/// directory.
pub uninterp spec fn text_table(text: Seq<u8>) -> Option<Map<Seq<char>, HostSettingsView>>;

/// A path without the slashes at its start.
pub open spec fn without_slashes(s: Seq<u8>) -> Seq<u8>
    decreases s.len(),
{
    if s.len() > 0 && s[0] == '/' as u8 {
        without_slashes(s.skip(1))
    } else {
        s
    }
}

/// Whether `file` can be what becomes of a key file that is written as `written`. `~` alone
/// or before a slash stands for the home directory, where it is known, and what follows the
/// slashes is put below it, with the separator of the machine between them. Any other key
/// file is kept. Not said is what becomes of one that some machines take for a path below the
/// home directory, or for one with a drive, and others do not.
pub open spec fn key_file_read(
    written: Seq<u8>,
    file: Seq<u8>,
    home: Option<Seq<u8>>,
) -> bool {
    let rest = without_slashes(written.skip(1));
    if written.len() == 0 || written[0] != '~' as u8 {
        file == written
    } else if written.len() > 1 && written[1] != '/' as u8 {
        written[1] != '\\' as u8 ==> file == written
    } else if let Some(home) = home {
        if rest.len() == 0 {
            file == home
        } else if rest[0] == '\\' as u8 || rest.contains(':' as u8) || home.len() == 0 || home[0]
            != '/' as u8 || home.last() == '\\' as u8 {
            true
        } else if home.last() == '/' as u8 {
            file == home + rest
        } else {
            file == home + seq!['/' as u8] + rest || file == home + seq!['\\' as u8] + rest
        }
    } else {
        true
    }
}

/// Whether `read` can be what is read of settings that are written as `written`.
pub open spec fn settings_read(
    written: HostSettingsView,
    read: HostSettingsView,
    home: Option<Seq<u8>>,
) -> bool {
    &&& read.host_name == written.host_name
    &&& read.user == written.user
    &&& read.port == written.port
    &&& match (written.identity_files, read.identity_files) {
        (Some(written), Some(read)) => {
            &&& read.len() == written.len()
            &&& forall|i: int|
                0 <= i < read.len() ==> key_file_read(written[i], #[trigger] read[i], home)
        },
        (None, None) => true,
        _ => false,
    }
}

/// Whether a text can be refused for want of a home directory: it has a `~`, and no home
/// directory is known.
pub open spec fn may_miss_home(text: Seq<u8>, home: Option<Seq<u8>>) -> bool {
    home is None && text.contains('~' as u8)
}

/// Whether `read` is what can be read in a text that says what `written` tells: of each host
/// the same. The text is refused for what it says, or where it may miss a home directory.
pub open spec fn reads_as(
    written: Option<Map<Seq<char>, HostSettingsView>>,
    read: Option<Map<Seq<char>, HostSettingsView>>,
    home: Option<Seq<u8>>,
    may_miss_home: bool,
) -> bool {
    match (written, read) {
        (Some(written), Some(read)) => forall|name: Seq<char>|
            settings_read(written[name], #[trigger] read[name], home),
        (Some(_), None) => may_miss_home,
        (None, Some(_)) => false,
        (None, None) => true,
    }
}

/// What a parsed configuration says, where there is one.
pub open spec fn table_of(config: Option<SshConfig>) -> Option<
    Map<Seq<char>, HostSettingsView>,
> {
    match config {
        Some(config) => Some(host_table(config)),
        None => None,
    }
}

/// Whether a table is what a configuration can be taken to say. Without a text it is none;
/// with one that is self-contained it is what can be read in that text. The meaning of other
/// texts rests on files and on the machine too.
pub open spec fn may_say(
    text: Option<Seq<u8>>,
    home: Option<Seq<u8>>,
    table: Option<Map<Seq<char>, HostSettingsView>>,
) -> bool {
    match text {
        Some(text) => self_contained(text) ==> reads_as(
            text_table(text),
            table,
            home,
            may_miss_home(text, home),
        ),
        None => table is None,
    }
}

/// `SshConfig::parse(..)` over the text of a configuration file, with the home directory set
/// by `SshConfig::home_dir` where one is given, unknown and unsupported fields allowed; a text
/// that it refuses gives nothing. Without a home directory it looks for that of the process.
/// Of a text that is self-contained, it looks at nothing but the text and the home directory,
/// and of the latter only for the key files that begin with `~`. Of any other text nothing is
/// claimed: the `Include` fields in it read other files, whether a wrong value of
/// `UseKeychain` is noticed rests on the system, and how long a number may be rests on the
/// machine.
#[verifier::external_body]
pub(crate) fn parse_ssh_config(content: &[u8], home: Option<&PathBuf>) -> (r: Option<SshConfig>)
    ensures
        self_contained(content@) ==> reads_as(
            text_table(content@),
            table_of(r),
            lent_path_bytes(home),
            may_miss_home(content@, lent_path_bytes(home)),
        ),
{
    let mut reader = content;
    let config = match home {
        Some(home) => SshConfig::default().home_dir(home),
        None => SshConfig::default(),
    };
    let rules = ParseRule::ALLOW_UNKNOWN_FIELDS | ParseRule::ALLOW_UNSUPPORTED_FIELDS;
    config.parse(&mut reader, rules).ok()
}

/// `SshConfig::query`: what the configuration says of the host `name`. It looks at nothing
/// but the configuration and the name, and has an answer for every name. Key files are given
/// by their bytes, as `OsString::into_encoded_bytes` has them.
#[verifier::external_body]
pub(crate) fn query_ssh_config(config: &SshConfig, name: &str) -> (r: HostSettings)
    ensures
        r@ == host_table(*config)[name@],
{
    let params = config.query(name);
    HostSettings {
        host_name: params.host_name,
        user: params.user,
        port: params.port,
        identity_files: params.identity_file.map(
            |v| v.into_iter().map(|p| p.into_os_string().into_encoded_bytes()).collect(),
        ),
    }
}

// ---------- Hosts listed in the SSH configuration ----------

/// A host that the SSH configuration of the user lists.
#[derive(Debug, PartialEq, Eq)]
pub struct SshConfigHost {
    pub alias: String,
    pub host_name: String,
    pub user: String,
    pub port: u16,
    pub identity_file: Option<FilePath>,
}

/// A listed host as a mathematical value.
#[verifier::ext_equal]
pub struct SshConfigHostView {
    pub alias: Seq<char>,
    pub host_name: Seq<char>,
    pub user: Seq<char>,
    pub port: u16,
    pub identity_file: Option<FilePathView>,
}

impl View for SshConfigHost {
    type V = SshConfigHostView;

    open spec fn view(&self) -> SshConfigHostView {
        SshConfigHostView {
            alias: self.alias@,
            host_name: self.host_name@,
            user: self.user@,
            port: self.port,
            identity_file: path_view(self.identity_file),
        }
    }
}

impl Clone for SshConfigHost {
    fn clone(&self) -> (r: SshConfigHost)
        ensures
            r@ == self@,
    {
        SshConfigHost {
            alias: self.alias.clone(),
            host_name: self.host_name.clone(),
            user: self.user.clone(),
            port: self.port,
            identity_file: copy_path(&self.identity_file),
        }
    }
}

impl SshConfigHostView {
    /// What a connection to the host is made with.
    pub open spec fn connect_params(
        self,
        check_host_key: bool,
        env: EnvironmentView,
    ) -> ConnectParamsView {
        ConnectParamsView {
            alias: Some(self.alias),
            user: if self.user.len() == 0 {
                login_name(env)
            } else {
                self.user
            },
            host: self.host_name,
            ssh_port: self.port,
            auth: AuthView::KeyFile(
                match self.identity_file {
                    Some(file) => file.expanded(env),
                    None => default_key(env),
                },
            ),
            check_host_key,
        }
    }
}

impl SshConfigHost {
    /// What a connection to the host is made with: the key file that its entry names, or the
    /// default one, and the login name of the user where the entry names none.
    pub fn to_connect_params(&self, check_host_key: bool, env: &Environment) -> (r: ConnectParams)
        ensures
            r@ == self@.connect_params(check_host_key, env@),
    {
        let user = if self.user.as_str().is_empty() {
            user_name(env)
        } else {
            self.user.clone()
        };
        let key_path = match &self.identity_file {
            Some(file) => expand_tilde(file, env),
            None => default_key_path(env),
        };
        ConnectParams {
            alias: Some(self.alias.clone()),
            user,
            host: self.host_name.clone(),
            ssh_port: self.port,
            auth: AuthMethod::KeyFile(key_path),
            check_host_key,
        }
    }
}

// ---------- Target strings ----------

/// The parts of a target string `[user@]host[:port]`.
#[verifier::ext_equal]
pub struct TargetParts {
    pub user: Option<Seq<char>>,
    pub host: Seq<char>,
    /// The digits behind the last colon, where nothing but digits stands there.
    pub port: Option<Seq<char>>,
}

/// The parts of a target string: the user before the first `@`, the port behind the last
/// colon, the host between them.
pub open spec fn target_parts(target: Seq<char>) -> TargetParts {
    let at = find(target, '@');
    let (user, rest) = if at < target.len() {
        (Some(target.take(at)), target.skip(at + 1))
    } else {
        (None, target)
    };
    match rfind(rest, ':') {
        Some(i) => if all_digits(rest.skip(i + 1)) {
            TargetParts { user, host: rest.take(i), port: Some(rest.skip(i + 1)) }
        } else {
            TargetParts { user, host: rest, port: None }
        },
        None => TargetParts { user, host: rest, port: None },
    }
}

/// The key file that is used where no way to log in is named.
pub open spec fn chosen_key(
    settings: Option<HostSettingsView>,
    env: EnvironmentView,
) -> FilePathView {
    match settings {
        Some(s) => match s.identity() {
            Some(file) => plain_path(file).expanded(env),
            None => default_key(env),
        },
        None => default_key(env),
    }
}

/// What a target string means, given what the SSH configuration says of its host: what the
/// string names goes before what the configuration says, and that before the defaults. The
/// name in the string becomes the alias where the configuration gives another address.
pub open spec fn resolved(
    target: Seq<char>,
    auth: Option<AuthView>,
    default_port: u16,
    no_host_key_check: bool,
    env: EnvironmentView,
    settings: Option<HostSettingsView>,
) -> Result<ConnectParamsView, Seq<char>> {
    let parts = target_parts(target);
    if parts.port is Some && unsigned(parts.port->0, u16::MAX as nat) is None {
        Err("端口格式错误: "@ + parts.port->0)
    } else {
        let host = match settings {
            Some(s) => match s.host_name {
                Some(name) => name,
                None => parts.host,
            },
            None => parts.host,
        };
        Ok(
            ConnectParamsView {
                alias: if host != parts.host {
                    Some(parts.host)
                } else {
                    None
                },
                user: match (parts.user, settings) {
                    (Some(user), _) => user,
                    (None, Some(s)) => match s.user {
                        Some(user) => user,
                        None => login_name(env),
                    },
                    (None, None) => login_name(env),
                },
                host,
                ssh_port: match (parts.port, settings) {
                    (Some(digits), _) => unsigned(digits, u16::MAX as nat)->0 as u16,
                    (None, Some(s)) => match s.port {
                        Some(port) => port,
                        None => default_port,
                    },
                    (None, None) => default_port,
                },
                auth: match auth {
                    Some(auth) => auth,
                    None => AuthView::KeyFile(chosen_key(settings, env)),
                },
                check_host_key: !no_host_key_check,
            },
        )
    }
}

/// The value of an optional way to log in.
pub open spec fn auth_view(auth: Option<AuthMethod>) -> Option<AuthView> {
    match auth {
        Some(auth) => Some(auth@),
        None => None,
    }
}

/// The value of optional settings.
pub open spec fn settings_view(settings: Option<HostSettings>) -> Option<HostSettingsView> {
    match settings {
        Some(settings) => Some(settings@),
        None => None,
    }
}

/// The value of a resolution.
pub open spec fn resolution(r: Result<ConnectParams, String>) -> Result<
    ConnectParamsView,
    Seq<char>,
> {
    match r {
        Ok(params) => Ok(params@),
        Err(message) => Err(message@),
    }
}

/// The parts of a target string.
struct Parts<'a> {
    user: Option<&'a [char]>,
    host: &'a [char],
    port: Option<&'a [char]>,
}

impl<'a> Parts<'a> {
    spec fn view(&self) -> TargetParts {
        TargetParts {
            user: match self.user {
                Some(user) => Some(user@),
                None => None,
            },
            host: self.host@,
            port: match self.port {
                Some(port) => Some(port@),
                None => None,
            },
        }
    }
}

fn split_target<'a>(target: &'a [char]) -> (r: Parts<'a>)
    ensures
        r.view() == target_parts(target@),
{
    let len: usize = target.len();
    let at: usize = find_char(target, '@');
    let user: Option<&'a [char]>;
    let rest: &'a [char];
    if at < len {
        assert(target@.subrange(0, at as int) == target@.take(at as int));
        assert(target@.subrange(at + 1, target@.len() as int) == target@.skip(at + 1));
        user = Some(slice_subrange(target, 0, at));
        rest = slice_subrange(target, at + 1, len);
    } else {
        user = None;
        rest = target;
    }
    let rest_len: usize = rest.len();
    if let Some(i) = rfind_char(rest, ':') {
        assert(rest@.subrange(0, i as int) == rest@.take(i as int));
        assert(rest@.subrange(i + 1, rest@.len() as int) == rest@.skip(i + 1));
        let digits: &'a [char] = slice_subrange(rest, i + 1, rest_len);
        if digits_only(digits) {
            return Parts { user, host: slice_subrange(rest, 0, i), port: Some(digits) };
        }
    }
    Parts { user, host: rest, port: None }
}

/// What a target string means, given what the SSH configuration says of its host.
pub fn resolve_with(
    target: &str,
    auth: Option<AuthMethod>,
    default_port: u16,
    no_host_key_check: bool,
    env: &Environment,
    settings: &Option<HostSettings>,
) -> (r: Result<ConnectParams, String>)
    ensures
        resolution(r) == resolved(
            target@,
            auth_view(auth),
            default_port,
            no_host_key_check,
            env@,
            settings_view(*settings),
        ),
{
    let chars = chars_of(target);
    let parts = split_target(chars.as_slice());
    let explicit_port: Option<u16> = match parts.port {
        Some(digits) => match parse_unsigned(digits, 65535) {
            Some(port) => Some(port as u16),
            None => {
                let shown = string_of(digits);
                let mut message = "端口格式错误: ".to_string();
                message.append(shown.as_str());
                return Err(message);
            },
        },
        None => None,
    };
    let named = string_of(parts.host);
    let host = match settings {
        Some(s) => match &s.host_name {
            Some(name) => name.clone(),
            None => named.clone(),
        },
        None => named.clone(),
    };
    let user = match parts.user {
        Some(user) => string_of(user),
        None => match settings {
            Some(s) => match &s.user {
                Some(user) => user.clone(),
                None => user_name(env),
            },
            None => user_name(env),
        },
    };
    let ssh_port: u16 = match explicit_port {
        Some(port) => port,
        None => match settings {
            Some(s) => match s.port {
                Some(port) => port,
                None => default_port,
            },
            None => default_port,
        },
    };
    let chosen_auth = match auth {
        Some(auth) => auth,
        None => {
            let identity: Option<&Vec<u8>> = match settings {
                Some(s) => s.first_identity(),
                None => None,
            };
            let key_path = match identity {
                Some(file) => expand_tilde(&FilePath::plain(copy_bytes(file.as_slice())), env),
                None => default_key_path(env),
            };
            AuthMethod::KeyFile(key_path)
        },
    };
    let alias = if host == named {
        None
    } else {
        Some(named)
    };
    Ok(
        ConnectParams {
            alias,
            user,
            host,
            ssh_port,
            auth: chosen_auth,
            check_host_key: !no_host_key_check,
        },
    )
}

/// What a configuration says of the host that a target string names.
pub open spec fn settings_for(
    table: Option<Map<Seq<char>, HostSettingsView>>,
    target: Seq<char>,
) -> Option<HostSettingsView> {
    match table {
        Some(table) => Some(table[target_parts(target).host]),
        None => None,
    }
}

/// The bytes of an optional text.
pub open spec fn bytes_of(text: Option<&[u8]>) -> Option<Seq<u8>> {
    match text {
        Some(text) => Some(text@),
        None => None,
    }
}

/// What a target string `[user@]host[:port]` means, where the host may be an alias of the
/// SSH configuration, whose text is `config` where there is one.
pub fn resolve_target_str(
    target: &str,
    auth: Option<AuthMethod>,
    default_port: u16,
    no_host_key_check: bool,
    env: &Environment,
    config: Option<&[u8]>,
) -> (r: Result<ConnectParams, String>)
    ensures
        exists|table: Option<Map<Seq<char>, HostSettingsView>>|
            #[trigger] may_say(bytes_of(config), env@.known_home(), table) && resolution(r)
                == resolved(
                target@,
                auth_view(auth),
                default_port,
                no_host_key_check,
                env@,
                settings_for(table, target@),
            ),
{
    let parsed: Option<SshConfig> = match config {
        Some(content) => parse_ssh_config(content, env.known_home()),
        None => None,
    };
    let settings: Option<HostSettings> = match &parsed {
        Some(parsed) => {
            let chars = chars_of(target);
            let parts = split_target(chars.as_slice());
            let name = string_of(parts.host);
            Some(query_ssh_config(parsed, name.as_str()))
        },
        None => None,
    };
    assert(may_say(bytes_of(config), env@.known_home(), table_of(parsed)));
    assert(settings_for(table_of(parsed), target@) == settings_view(settings));
    resolve_with(target, auth, default_port, no_host_key_check, env, &settings)
}

// ---------- Laws ----------

/// The name under which a host without an alias is shown leads back to that host: typed in as
/// a target, it means the same user, host and port. The user has no `@` in its name.
pub proof fn lemma_shown_name_resolves(
    params: ConnectParamsView,
    default_port: u16,
    no_host_key_check: bool,
    env: EnvironmentView,
)
    requires
        params.alias is None,
        forall|i: int| 0 <= i < params.user.len() ==> #[trigger] params.user[i] != '@',
    ensures
        resolved(
            params.display_name(),
            Some(params.auth),
            default_port,
            no_host_key_check,
            env,
            None,
        ) == Ok::<ConnectParamsView, Seq<char>>(
            ConnectParamsView { check_host_key: !no_host_key_check, ..params },
        ),
{
    let name = params.display_name();
    let digits = dec(params.ssh_port as nat);
    let user = params.user;
    let host = params.host;
    reveal_strlit("@");
    reveal_strlit(":");
    assert(name[user.len() as int] == '@');
    assert forall|i: int| 0 <= i < user.len() implies name[i] != '@' by {
        assert(name[i] == user[i]);
    }
    lemma_find(name, '@', user.len() as int);
    assert(name.take(user.len() as int) =~= user);
    let rest = name.skip(user.len() as int + 1);
    assert(rest =~= host + ":"@ + digits);
    lemma_dec_value(params.ssh_port as nat);
    assert(rest[host.len() as int] == ':');
    assert forall|j: int| host.len() < j < rest.len() implies #[trigger] rest[j] != ':' by {
        assert(rest[j] == digits[j - host.len() - 1]);
        assert(is_digit(digits[j - host.len() - 1]));
    }
    lemma_rfind(rest, ':', host.len() as int);
    assert(rest.take(host.len() as int) =~= host);
    assert(rest.skip(host.len() as int + 1) =~= digits);
    lemma_dec_round_trip(params.ssh_port as nat, u16::MAX as nat);
}

/// What a target names goes before what the SSH configuration says of its host.
pub proof fn lemma_named_goes_first(
    target: Seq<char>,
    auth: Option<AuthView>,
    default_port: u16,
    no_host_key_check: bool,
    env: EnvironmentView,
    settings: Option<HostSettingsView>,
)
    requires
        resolved(target, auth, default_port, no_host_key_check, env, settings) is Ok,
    ensures
        ({
            let parts = target_parts(target);
            let params = resolved(
                target,
                auth,
                default_port,
                no_host_key_check,
                env,
                settings,
            )->Ok_0;
            &&& parts.user is Some ==> params.user == parts.user->0
            &&& parts.port is Some ==> params.ssh_port == unsigned(
                parts.port->0,
                u16::MAX as nat,
            )->0
            &&& auth is Some ==> params.auth == auth->0
            &&& params.alias is Some ==> params.alias->0 == parts.host && params.host
                != parts.host
        }),
{
}

/// What a self-contained text says of a host decides what a target string means, whatever
/// the machine: whether it is refused and why, the user, the host with its alias, and the
/// port; the login too where one is named, or where the first key file that the text gives
/// does not begin with `~`.
pub proof fn lemma_text_decides(
    text: Seq<u8>,
    home: Option<Seq<u8>>,
    table: Option<Map<Seq<char>, HostSettingsView>>,
    target: Seq<char>,
    auth: Option<AuthView>,
    default_port: u16,
    no_host_key_check: bool,
    env: EnvironmentView,
)
    requires
        self_contained(text),
        home is Some,
        may_say(Some(text), home, table),
    ensures
        ({
            let said = settings_for(text_table(text), target);
            let meant = resolved(target, auth, default_port, no_host_key_check, env, said);
            let got = resolved(
                target,
                auth,
                default_port,
                no_host_key_check,
                env,
                settings_for(table, target),
            );
            match (meant, got) {
                (Ok(meant), Ok(got)) => {
                    &&& got.alias == meant.alias
                    &&& got.user == meant.user
                    &&& got.host == meant.host
                    &&& got.ssh_port == meant.ssh_port
                    &&& got.check_host_key == meant.check_host_key
                    &&& auth is Some || said is None || said->0.identity() is None || !(
                    said->0.identity()->0.len() > 0 && said->0.identity()->0[0] == '~' as u8)
                        ==> got.auth == meant.auth
                },
                (Err(meant), Err(got)) => got == meant,
                _ => false,
            }
        }),
{
    if let (Some(written), Some(read)) = (text_table(text), table) {
        let name = target_parts(target).host;
        assert(settings_read(written[name], read[name], home));
        if let Some(files) = read[name].identity_files {
            if files.len() > 0 {
                assert(key_file_read(written[name].identity_files->0[0], files[0], home));
            }
        }
    }
}

} // verus!
