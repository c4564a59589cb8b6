//! The hosts that the SSH configuration of the user lists by name.

use ssh2_config::SshConfig;
use vstd::prelude::*;
use vstd::slice::slice_subrange;
use vstd::utf8::encode_utf8;

use crate::paths::below_tilde;
use crate::paths::copy_bytes;
use crate::paths::expand_tilde;
use crate::paths::lemma_expanded_once;
use crate::paths::plain_path;
use crate::paths::Environment;
use crate::paths::EnvironmentView;
use crate::paths::FilePath;
use crate::target::host_table;
use crate::target::may_say;
use crate::target::parse_ssh_config;
use crate::target::query_ssh_config;
use crate::target::resolved;
use crate::target::self_contained;
use crate::target::settings_read;
use crate::target::string_views;
use crate::target::table_of;
use crate::target::target_parts;
use crate::target::text_table;
use crate::target::HostSettings;
use crate::target::HostSettingsView;
use crate::target::SshConfigHost;
use crate::target::SshConfigHostView;
use crate::target::TargetParts;
use crate::text::chars_of;
use crate::text::find;
use crate::text::find_char;
use crate::text::lemma_find;
use crate::text::lines;
use crate::text::rfind;
use crate::text::split_lines;
use crate::text::split_words;
use crate::text::string_of;
use crate::text::texts;
use crate::text::trim;
use crate::text::trimmed;
use crate::text::words;

verus! {

// ---------- The names in a configuration ----------

/// Whether a name is a pattern rather than the name of one host.
pub open spec fn is_pattern(name: Seq<char>) -> bool {
    find(name, '*') < name.len() || find(name, '?') < name.len()
}

/// Whether `s` begins with `prefix`.
pub open spec fn begins(s: Seq<char>, prefix: Seq<char>) -> bool {
    prefix.len() <= s.len() && s.take(prefix.len() as int) == prefix
}

/// The names that a line of the configuration gives to a host section.
pub open spec fn section_names(line: Seq<char>) -> Seq<Seq<char>> {
    if begins(line, "Host "@) || begins(line, "host "@) {
        words(line.skip(5))
    } else {
        Seq::empty()
    }
}

/// `known` with the names of `more` that are neither patterns nor known already, in order.
pub open spec fn extended(known: Seq<Seq<char>>, more: Seq<Seq<char>>) -> Seq<Seq<char>>
    decreases more.len(),
{
    if more.len() == 0 {
        known
    } else {
        let before = extended(known, more.drop_last());
        let name = more.last();
        if is_pattern(name) || before.contains(name) {
            before
        } else {
            before.push(name)
        }
    }
}

/// The names of hosts in the first `n` lines.
pub open spec fn names_in(rows: Seq<Seq<char>>, n: int) -> Seq<Seq<char>>
    decreases n,
{
    if n <= 0 {
        Seq::empty()
    } else {
        extended(names_in(rows, n - 1), section_names(trim(rows[n - 1])))
    }
}

/// The names of hosts that the text of a configuration lists: those of its `Host` lines, in
/// order, each once, patterns left out.
pub open spec fn host_names(content: Seq<char>) -> Seq<Seq<char>> {
    names_in(lines(content), lines(content).len() as int)
}

// ---------- What is known of them ----------

/// What is shown of a host of the configuration.
pub open spec fn host_of(
    name: Seq<char>,
    settings: HostSettingsView,
    env: EnvironmentView,
) -> SshConfigHostView {
    SshConfigHostView {
        alias: name,
        host_name: match settings.host_name {
            Some(address) => address,
            None => name,
        },
        user: match settings.user {
            Some(user) => user,
            None => Seq::empty(),
        },
        port: match settings.port {
            Some(port) => port,
            None => 22,
        },
        identity_file: match settings.identity() {
            Some(file) => Some(plain_path(file).expanded(env)),
            None => None,
        },
    }
}

/// The values of a list of hosts.
pub open spec fn host_views(v: Seq<SshConfigHost>) -> Seq<SshConfigHostView> {
    v.map_values(|h: SshConfigHost| h@)
}

/// The hosts of a configuration, given what it says of each.
pub open spec fn hosts_in(
    content: Seq<char>,
    table: Map<Seq<char>, HostSettingsView>,
    env: EnvironmentView,
) -> Seq<SshConfigHostView> {
    host_names(content).map_values(|name: Seq<char>| host_of(name, table[name], env))
}

/// What is shown of a host of the configuration.
pub fn describe_host(name: &str, settings: &HostSettings, env: &Environment) -> (r: SshConfigHost)
    ensures
        r@ == host_of(name@, settings@, env@),
{
    let identity_file = match settings.first_identity() {
        Some(file) => Some(expand_tilde(&FilePath::plain(copy_bytes(file.as_slice())), env)),
        None => None,
    };
    SshConfigHost {
        alias: name.to_string(),
        host_name: match &settings.host_name {
            Some(address) => address.clone(),
            None => name.to_string(),
        },
        user: match &settings.user {
            Some(user) => user.clone(),
            None => String::new(),
        },
        port: match settings.port {
            Some(port) => port,
            None => 22,
        },
        identity_file,
    }
}

fn pattern(name: &[char]) -> (r: bool)
    ensures
        r == is_pattern(name@),
{
    find_char(name, '*') < name.len() || find_char(name, '?') < name.len()
}

fn starts_with(s: &[char], prefix: &str) -> (r: bool)
    ensures
        r == begins(s@, prefix@),
{
    let p = chars_of(prefix);
    if s.len() < p.len() {
        return false;
    }
    let mut i: usize = 0;
    while i < p.len()
        invariant
            p@ == prefix@,
            i <= p@.len() <= s@.len(),
            forall|j: int| 0 <= j < i ==> s@[j] == #[trigger] p@[j],
        decreases p@.len() - i,
    {
        if s[i] != p[i] {
            assert(s@.take(p@.len() as int)[i as int] != p@[i as int]);
            return false;
        }
        i = i + 1;
    }
    assert(s@.take(p@.len() as int) =~= p@);
    true
}

/// The names that a line of the configuration gives to a host section.
fn names_of_line<'a>(line: &'a [char]) -> (v: Vec<&'a [char]>)
    ensures
        texts(v@) == section_names(line@),
{
    proof {
        reveal_strlit("Host ");
        reveal_strlit("host ");
    }
    let len: usize = line.len();
    if starts_with(line, "Host ") || starts_with(line, "host ") {
        assert(line@.subrange(5, line@.len() as int) == line@.skip(5));
        split_words(slice_subrange(line, 5, len))
    } else {
        let v: Vec<&'a [char]> = Vec::new();
        assert(texts(v@) =~= Seq::empty());
        v
    }
}

/// Whether `name` is among `known`.
fn among(known: &Vec<String>, name: &String) -> (r: bool)
    ensures
        r == string_views(known@).contains(name@),
{
    for i in 0..known.len()
        invariant
            forall|j: int| 0 <= j < i ==> (#[trigger] known@[j])@ != name@,
    {
        if known[i] == *name {
            assert(string_views(known@)[i as int] == name@);
            return true;
        }
    }
    assert forall|j: int| 0 <= j < string_views(known@).len() implies string_views(known@)[j] != name@ by {
        assert(string_views(known@)[j] == known@[j]@);
    }
    false
}

/// The names of hosts that the text of a configuration lists: those of its `Host` lines, in
/// order, each once, patterns left out.
pub fn list_host_names(content: &str) -> (known: Vec<String>)
    ensures
        string_views(known@) == host_names(content@),
{
    let chars = chars_of(content);
    let rows = split_lines(chars.as_slice());
    let mut known: Vec<String> = Vec::new();
    assert(string_views(known@) =~= Seq::empty());
    assert(texts(rows@).len() == rows@.len());
    for r in 0..rows.len()
        invariant
            texts(rows@) == lines(content@),
            texts(rows@).len() == rows@.len(),
            string_views(known@) == names_in(lines(content@), r as int),
    {
        let line: &[char] = trimmed(rows[r]);
        assert(texts(rows@)[r as int] == rows@[r as int]@);
        let more = names_of_line(line);
        let ghost start = string_views(known@);
        let ghost all = texts(more@);
        assert(all.len() == more@.len());
        assert(all.take(0) =~= Seq::empty());
        for k in 0..more.len()
            invariant
                all == texts(more@),
                all.len() == more@.len(),
                string_views(known@) == extended(start, all.take(k as int)),
        {
            let name = string_of(more[k]);
            assert(all[k as int] == more@[k as int]@);
            assert(all.take(k + 1).drop_last() =~= all.take(k as int));
            let ghost before = known@;
            if !pattern(more[k]) && !among(&known, &name) {
                known.push(name);
                assert(string_views(known@) =~= string_views(before).push(name@));
            }
        }
        assert(all.take(more@.len() as int) =~= all);
    }
    known
}

/// The hosts of a configuration, given the parsed form of the same text.
pub fn list_hosts(content: &str, parsed: &SshConfig, env: &Environment) -> (v: Vec<SshConfigHost>)
    ensures
        host_views(v@) == hosts_in(content@, host_table(*parsed), env@),
{
    let known = list_host_names(content);
    let mut v: Vec<SshConfigHost> = Vec::new();
    let ghost all = hosts_in(content@, host_table(*parsed), env@);
    assert(all.len() == known@.len()) by {
        assert(string_views(known@).len() == known@.len());
    }
    for i in 0..known.len()
        invariant
            string_views(known@) == host_names(content@),
            all == hosts_in(content@, host_table(*parsed), env@),
            all.len() == known@.len(),
            host_views(v@) == all.take(i as int),
    {
        assert(string_views(known@)[i as int] == known@[i as int]@);
        let settings = query_ssh_config(parsed, known[i].as_str());
        let ghost before = v@;
        let host = describe_host(known[i].as_str(), &settings, env);
        v.push(host);
        assert(host_views(v@) =~= host_views(before).push(host@));
        assert(all.take(i + 1) =~= all.take(i as int).push(all[i as int]));
    }
    assert(all.take(known@.len() as int) =~= all);
    v
}

/// The hosts that a configuration lists by name, given what it says of each, and none where
/// its text is refused.
pub open spec fn hosts_listed(
    content: Seq<char>,
    table: Option<Map<Seq<char>, HostSettingsView>>,
    env: EnvironmentView,
) -> Seq<SshConfigHostView> {
    match table {
        Some(table) => hosts_in(content, table, env),
        None => Seq::empty(),
    }
}

/// The hosts that the SSH configuration with the text `content` lists by name, or none where
/// the text is refused.
pub fn list_ssh_config_hosts(content: &str, env: &Environment) -> (v: Vec<SshConfigHost>)
    ensures
        exists|table: Option<Map<Seq<char>, HostSettingsView>>|
            #[trigger] may_say(Some(encode_utf8(content@)), env@.known_home(), table)
                && host_views(v@) == hosts_listed(content@, table, env@),
{
    let parsed = parse_ssh_config(content.as_bytes(), env.known_home());
    assert(may_say(Some(encode_utf8(content@)), env@.known_home(), table_of(parsed)));
    match parsed {
        Some(parsed) => list_hosts(content, &parsed, env),
        None => {
            let none: Vec<SshConfigHost> = Vec::new();
            assert(host_views(none@) =~= Seq::empty());
            none
        },
    }
}

// ---------- Laws ----------

/// No name is listed twice, and none is a pattern.
pub proof fn lemma_host_names_distinct(content: Seq<char>)
    ensures
        host_names(content).no_duplicates(),
        forall|i: int| 0 <= i < host_names(content).len() ==> !is_pattern(
            #[trigger] host_names(content)[i],
        ),
{
    lemma_names_distinct(lines(content), lines(content).len() as int);
}

spec fn proper(v: Seq<Seq<char>>) -> bool {
    v.no_duplicates() && forall|i: int| 0 <= i < v.len() ==> !is_pattern(#[trigger] v[i])
}

proof fn lemma_names_distinct(rows: Seq<Seq<char>>, n: int)
    ensures
        proper(names_in(rows, n)),
    decreases n,
{
    if n > 0 {
        lemma_names_distinct(rows, n - 1);
        lemma_extended_distinct(names_in(rows, n - 1), section_names(trim(rows[n - 1])));
    }
}

proof fn lemma_extended_distinct(known: Seq<Seq<char>>, more: Seq<Seq<char>>)
    requires
        proper(known),
    ensures
        proper(extended(known, more)),
    decreases more.len(),
{
    if more.len() > 0 {
        lemma_extended_distinct(known, more.drop_last());
    }
}

/// What a self-contained text says decides which hosts are listed, in which order, and with
/// which address, user and port, whatever the machine.
pub proof fn lemma_text_lists(
    content: Seq<char>,
    home: Option<Seq<u8>>,
    table: Option<Map<Seq<char>, HostSettingsView>>,
    env: EnvironmentView,
)
    requires
        self_contained(encode_utf8(content)),
        home is Some,
        may_say(Some(encode_utf8(content)), home, table),
    ensures
        ({
            let said = hosts_listed(content, text_table(encode_utf8(content)), env);
            let got = hosts_listed(content, table, env);
            &&& got.len() == said.len()
            &&& forall|i: int|
                0 <= i < got.len() ==> {
                    &&& (#[trigger] got[i]).alias == said[i].alias
                    &&& got[i].host_name == said[i].host_name
                    &&& got[i].user == said[i].user
                    &&& got[i].port == said[i].port
                }
        }),
{
    if let (Some(written), Some(read)) = (text_table(encode_utf8(content)), table) {
        let names = host_names(content);
        assert forall|i: int| 0 <= i < names.len() implies settings_read(
            written[names[i]],
            #[trigger] read[names[i]],
            home,
        ) by {}
    }
}

/// Choosing a listed host and typing its name lead to the same user, host, port and key. The
/// name holds neither `@` nor `:`, the configuration names no empty user, and the home
/// directory is not itself a path below `~`.
pub proof fn lemma_listed_as_typed(
    name: Seq<char>,
    settings: HostSettingsView,
    env: EnvironmentView,
    check_host_key: bool,
)
    requires
        forall|i: int| 0 <= i < name.len() ==> #[trigger] name[i] != '@' && name[i] != ':',
        settings.user is Some ==> settings.user->0.len() > 0,
        match env.home {
            Some(home) => below_tilde(home, env.backslash) is None && home.len() > 0,
            None => true,
        },
    ensures
        ({
            let chosen = host_of(name, settings, env).connect_params(check_host_key, env);
            let typed = resolved(name, None, 22, !check_host_key, env, Some(settings));
            &&& typed is Ok
            &&& chosen.user == typed->Ok_0.user
            &&& chosen.host == typed->Ok_0.host
            &&& chosen.ssh_port == typed->Ok_0.ssh_port
            &&& chosen.auth == typed->Ok_0.auth
            &&& chosen.check_host_key == typed->Ok_0.check_host_key
        }),
{
    lemma_find(name, '@', name.len() as int);
    lemma_no_last(name, ':');
    assert(target_parts(name) == (TargetParts { user: None, host: name, port: None }));
    if let Some(file) = settings.identity() {
        lemma_expanded_once(plain_path(file), env);
    }
}

proof fn lemma_no_last(s: Seq<char>, c: char)
    requires
        forall|i: int| 0 <= i < s.len() ==> #[trigger] s[i] != c,
    ensures
        rfind(s, c) is None,
    decreases s.len(),
{
    if s.len() > 0 {
        assert(s[s.len() - 1] != c);
        lemma_no_last(s.drop_last(), c);
    }
}

} // verus!
