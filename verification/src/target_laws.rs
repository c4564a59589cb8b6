//! What holds of targets, of the hosts that the SSH configuration lists, and of paths.

use vstd::prelude::*;
use vstd::utf8::encode_utf8;

use crate::paths::config_file;
use crate::paths::default_key;
use crate::paths::plain_path;
use crate::paths::ssh_config_file;
use crate::paths::without_idle_end;
use crate::paths::without_idle_pieces;
use crate::paths::without_idle_start;
use crate::paths::EnvironmentView;
use crate::paths::FilePathView;
use crate::ssh_hosts::extended;
use crate::ssh_hosts::host_names;
use crate::ssh_hosts::host_of;
use crate::ssh_hosts::hosts_listed;
use crate::ssh_hosts::is_pattern;
use crate::ssh_hosts::names_in;
use crate::ssh_hosts::section_names;
use crate::target::resolved;
use crate::target::settings_for;
use crate::target::target_parts;
use crate::target::AuthView;
use crate::target::ConnectParamsView;
use crate::target::HostSettingsView;
use crate::target::SshConfigHostView;
use crate::target::TargetParts;
use crate::text::all_digits;
use crate::text::dec;
use crate::text::find;
use crate::text::is_digit;
use crate::text::lemma_find;
use crate::text::lemma_find_bounds;
use crate::text::lemma_rfind;
use crate::text::lines;
use crate::text::rfind;
use crate::text::trim;
use crate::text::value;
use crate::text::words;
use crate::text_laws::lemma_unsigned;

verus! {

// ---------- Targets ----------

/// A target as it is written: a user before `@`, a host, and the digits of a port behind a
/// colon, the first and the last of them where they are named.
pub open spec fn written(
    user: Option<Seq<char>>,
    host: Seq<char>,
    digits: Option<Seq<char>>,
) -> Seq<char> {
    let rest = match digits {
        Some(digits) => host + seq![':'] + digits,
        None => host,
    };
    match user {
        Some(user) => user + seq!['@'] + rest,
        None => rest,
    }
}

/// Whether what is written can be told apart again: no `@` stands before the one that ends the
/// user, and the port is made of digits, which the end of a host without a port does not look
/// like.
pub open spec fn readable(
    user: Option<Seq<char>>,
    host: Seq<char>,
    digits: Option<Seq<char>>,
) -> bool {
    &&& match user {
        Some(user) => forall|i: int| 0 <= i < user.len() ==> #[trigger] user[i] != '@',
        None => forall|i: int| 0 <= i < host.len() ==> #[trigger] host[i] != '@',
    }
    &&& match digits {
        Some(digits) => all_digits(digits),
        None => forall|i: int|
            0 <= i < host.len() && #[trigger] host[i] == ':' ==> !all_digits(host.skip(i + 1)),
    }
}

proof fn lemma_rfind_none(s: Seq<char>, c: char)
    ensures
        match rfind(s, c) {
            Some(n) => 0 <= n < s.len() && s[n] == c,
            None => forall|j: int| 0 <= j < s.len() ==> #[trigger] s[j] != c,
        },
    decreases s.len(),
{
    if s.len() > 0 && s.last() != c {
        let t = s.drop_last();
        lemma_rfind_none(t, c);
        assert forall|j: int| 0 <= j < s.len() - 1 implies #[trigger] s[j] == t[j] by {}
    }
}

proof fn lemma_rest_parts(host: Seq<char>, digits: Option<Seq<char>>)
    requires
        match digits {
            Some(digits) => all_digits(digits),
            None => forall|i: int|
                0 <= i < host.len() && #[trigger] host[i] == ':' ==> !all_digits(host.skip(i + 1)),
        },
    ensures
        ({
            let rest = written(None, host, digits);
            match rfind(rest, ':') {
                Some(i) => if all_digits(rest.skip(i + 1)) {
                    digits == Some(rest.skip(i + 1)) && host == rest.take(i)
                } else {
                    digits is None && host == rest
                },
                None => digits is None && host == rest,
            }
        }),
{
    let rest = written(None, host, digits);
    match digits {
        Some(d) => {
            let n = host.len() as int;
            assert(rest[n] == ':');
            assert forall|j: int| n < j < rest.len() implies #[trigger] rest[j] != ':' by {
                assert(rest[j] == d[j - n - 1]);
                assert(is_digit(d[j - n - 1]));
            }
            lemma_rfind(rest, ':', n);
            assert(rest.skip(n + 1) =~= d);
            assert(rest.take(n) =~= host);
        },
        None => {
            lemma_rfind_none(host, ':');
        },
    }
}

/// A target is taken apart into what it was written from: the user before the first `@`, the
/// digits behind the last colon, and the host between them, whatever stands in it.
pub proof fn lemma_target_parts(
    user: Option<Seq<char>>,
    host: Seq<char>,
    digits: Option<Seq<char>>,
)
    requires
        readable(user, host, digits),
    ensures
        target_parts(written(user, host, digits)) == (TargetParts { user, host, port: digits }),
{
    let text = written(user, host, digits);
    let rest = written(None, host, digits);
    lemma_rest_parts(host, digits);
    match user {
        Some(u) => {
            let n = u.len() as int;
            assert(text[n] == '@');
            assert forall|j: int| 0 <= j < n implies #[trigger] text[j] != '@' by {
                assert(text[j] == u[j]);
            }
            lemma_find(text, '@', n);
            assert(text.take(n) =~= u);
            assert(text.skip(n + 1) =~= rest);
        },
        None => {
            assert forall|j: int| 0 <= j < text.len() implies #[trigger] text[j] != '@' by {
                if j < host.len() {
                    assert(text[j] == host[j]);
                } else if j > host.len() {
                    let d = digits->0;
                    assert(text[j] == d[j - host.len() - 1]);
                    assert(is_digit(d[j - host.len() - 1]));
                }
            }
            lemma_find(text, '@', text.len() as int);
        },
    }
}

/// The SSH configuration is asked for the host of a target, not for its user or its port.
pub proof fn lemma_host_part_asked(
    user: Option<Seq<char>>,
    host: Seq<char>,
    digits: Option<Seq<char>>,
    table: Map<Seq<char>, HostSettingsView>,
)
    requires
        readable(user, host, digits),
    ensures
        settings_for(Some(table), written(user, host, digits)) == Some(table[host]),
        settings_for(None, written(user, host, digits)) is None,
{
    lemma_target_parts(user, host, digits);
}

/// What a target means, part by part. A port that is no number up to 65535 is refused, and
/// nothing else. Otherwise what is named goes before what the SSH configuration says of the
/// host, and that before the defaults: the user of the environment, the port that is given,
/// the key in the home directory.
pub proof fn lemma_target_means(
    user: Option<Seq<char>>,
    host: Seq<char>,
    digits: Option<Seq<char>>,
    auth: Option<AuthView>,
    default_port: u16,
    no_host_key_check: bool,
    env: EnvironmentView,
    settings: Option<HostSettingsView>,
)
    requires
        readable(user, host, digits),
    ensures
        ({
            let r = resolved(
                written(user, host, digits),
                auth,
                default_port,
                no_host_key_check,
                env,
                settings,
            );
            let bad = digits is Some && (digits->0.len() == 0 || value(digits->0) > 65535);
            &&& bad ==> r == Err::<ConnectParamsView, Seq<char>>("端口格式错误: "@ + digits->0)
            &&& !bad ==> r is Ok
            &&& !bad ==> {
                let p = r->Ok_0;
                let address = settings is Some && settings->0.host_name is Some;
                let login = settings is Some && settings->0.user is Some;
                let port = settings is Some && settings->0.port is Some;
                let key = settings is Some && settings->0.identity_files is Some
                    && settings->0.identity_files->0.len() > 0;
                &&& address ==> p.host == settings->0.host_name->0
                &&& !address ==> p.host == host
                &&& p.host != host ==> p.alias == Some(host)
                &&& p.host == host ==> p.alias is None
                &&& user is Some ==> p.user == user->0
                &&& user is None && login ==> p.user == settings->0.user->0
                &&& user is None && !login && env.user is Some ==> p.user == env.user->0
                &&& user is None && !login && env.user is None && env.logname is Some ==> p.user
                    == env.logname->0
                &&& user is None && !login && env.user is None && env.logname is None ==> p.user
                    == "root"@
                &&& digits is Some ==> p.ssh_port == value(digits->0)
                &&& digits is None && port ==> p.ssh_port == settings->0.port->0
                &&& digits is None && !port ==> p.ssh_port == default_port
                &&& auth is Some ==> p.auth == auth->0
                &&& auth is None && key ==> p.auth == AuthView::KeyFile(
                    plain_path(settings->0.identity_files->0[0]).expanded(env),
                )
                &&& auth is None && !key ==> p.auth == AuthView::KeyFile(
                    FilePathView {
                        base: if env.home is Some {
                            env.home->0
                        } else {
                            Seq::empty()
                        },
                        below: seq![encode_utf8(".ssh/id_ed25519"@)],
                    },
                )
                &&& p.check_host_key == !no_host_key_check
            }
        }),
{
    lemma_target_parts(user, host, digits);
    if let Some(d) = digits {
        lemma_unsigned(d, u16::MAX as nat);
    }
    lemma_default_key(env);
}

/// Whether a target names a user or a port plays no part in the login that is chosen for it:
/// it is that of the host alone.
pub proof fn lemma_login_of_host_alone(
    user: Option<Seq<char>>,
    host: Seq<char>,
    digits: Option<Seq<char>>,
    auth: Option<AuthView>,
    default_port: u16,
    no_host_key_check: bool,
    env: EnvironmentView,
    table: Option<Map<Seq<char>, HostSettingsView>>,
)
    requires
        readable(user, host, digits),
        readable(None, host, None),
        digits is Some ==> digits->0.len() > 0 && value(digits->0) <= 65535,
    ensures
        ({
            let text = written(user, host, digits);
            let full = resolved(
                text,
                auth,
                default_port,
                no_host_key_check,
                env,
                settings_for(table, text),
            );
            let alone = resolved(
                host,
                auth,
                default_port,
                no_host_key_check,
                env,
                settings_for(table, host),
            );
            &&& full is Ok && alone is Ok
            &&& full->Ok_0.auth == alone->Ok_0.auth
            &&& full->Ok_0.host == alone->Ok_0.host
            &&& full->Ok_0.alias == alone->Ok_0.alias
        }),
{
    let text = written(user, host, digits);
    let settings = settings_for(table, text);
    lemma_target_parts(user, host, digits);
    lemma_target_parts(None, host, None);
    assert(written(None, host, None) == host);
    assert(settings_for(table, host) == settings);
    lemma_target_means(user, host, digits, auth, default_port, no_host_key_check, env, settings);
    lemma_target_means(None, host, None, auth, default_port, no_host_key_check, env, settings);
}

/// A host is shown by its alias, and one without by user, host and port.
pub proof fn lemma_display_name(p: ConnectParamsView)
    ensures
        p.alias is Some ==> p.display_name() == p.alias->0,
        p.alias is None ==> p.display_name() == p.user + seq!['@'] + p.host + seq![':'] + dec(
            p.ssh_port as nat,
        ),
{
    reveal_strlit("@");
    reveal_strlit(":");
    assert("@"@ =~= seq!['@']);
    assert(":"@ =~= seq![':']);
}

// ---------- Listed hosts ----------

/// What a listed host is connected with: its own address and port under its alias, its user or
/// that of the environment, and its key or the one in the home directory.
pub proof fn lemma_listed_host_means(
    host: SshConfigHostView,
    check_host_key: bool,
    env: EnvironmentView,
)
    ensures
        ({
            let p = host.connect_params(check_host_key, env);
            &&& p.alias == Some(host.alias)
            &&& p.host == host.host_name
            &&& p.ssh_port == host.port
            &&& p.check_host_key == check_host_key
            &&& host.user.len() > 0 ==> p.user == host.user
            &&& host.user.len() == 0 && env.user is Some ==> p.user == env.user->0
            &&& host.user.len() == 0 && env.user is None && env.logname is Some ==> p.user
                == env.logname->0
            &&& host.user.len() == 0 && env.user is None && env.logname is None ==> p.user
                == "root"@
            &&& host.identity_file is Some ==> p.auth == AuthView::KeyFile(
                host.identity_file->0.expanded(env),
            )
            &&& host.identity_file is None ==> p.auth == AuthView::KeyFile(default_key(env))
        }),
{
}

/// What is listed of a host is what the SSH configuration says of it: the address, or its name
/// where none is given; the user, or none; the port, or 22; and the first key, or none.
pub proof fn lemma_host_described(
    name: Seq<char>,
    settings: HostSettingsView,
    env: EnvironmentView,
)
    ensures
        ({
            let h = host_of(name, settings, env);
            let key = settings.identity_files is Some && settings.identity_files->0.len() > 0;
            &&& h.alias == name
            &&& settings.host_name is Some ==> h.host_name == settings.host_name->0
            &&& settings.host_name is None ==> h.host_name == name
            &&& settings.user is Some ==> h.user == settings.user->0
            &&& settings.user is None ==> h.user.len() == 0
            &&& settings.port is Some ==> h.port == settings.port->0
            &&& settings.port is None ==> h.port == 22
            &&& key ==> h.identity_file == Some(
                plain_path(settings.identity_files->0[0]).expanded(env),
            )
            &&& !key ==> h.identity_file is None
        }),
{
}

/// The hosts that are listed are those whose names the text gives, in that order, each with
/// what the configuration says of that name; and none where the text is refused.
pub proof fn lemma_hosts_by_name(
    content: Seq<char>,
    table: Map<Seq<char>, HostSettingsView>,
    env: EnvironmentView,
)
    ensures
        hosts_listed(content, None, env).len() == 0,
        hosts_listed(content, Some(table), env).len() == host_names(content).len(),
        forall|i: int|
            0 <= i < host_names(content).len() ==> #[trigger] hosts_listed(
                content,
                Some(table),
                env,
            )[i] == host_of(host_names(content)[i], table[host_names(content)[i]], env),
{
}

/// Whether a name is that of one host: no star and no question mark stands in it.
pub open spec fn plain_name(name: Seq<char>) -> bool {
    forall|i: int| 0 <= i < name.len() ==> #[trigger] name[i] != '*' && name[i] != '?'
}

proof fn lemma_pattern(name: Seq<char>)
    ensures
        is_pattern(name) == !plain_name(name),
{
    lemma_find_bounds(name, '*');
    lemma_find_bounds(name, '?');
    if !is_pattern(name) {
        assert forall|i: int| 0 <= i < name.len() implies #[trigger] name[i] != '*' && name[i]
            != '?' by {}
    } else if find(name, '*') < name.len() {
        assert(name[find(name, '*')] == '*');
    } else {
        assert(name[find(name, '?')] == '?');
    }
}

/// Whether a line, trimmed, is `Host` in either spelling, a blank, and some words, of which
/// one stands at that place.
pub open spec fn names_at(line: Seq<char>, k: int, name: Seq<char>) -> bool {
    let t = trim(line);
    &&& t.len() >= 5
    &&& t[0] == 'H' || t[0] == 'h'
    &&& t[1] == 'o' && t[2] == 's' && t[3] == 't' && t[4] == ' '
    &&& 0 <= k < words(t.skip(5)).len()
    &&& words(t.skip(5))[k] == name
}

proof fn lemma_section_names(line: Seq<char>, k: int, name: Seq<char>)
    ensures
        names_at(line, k, name) == (0 <= k < section_names(trim(line)).len() && section_names(
            trim(line),
        )[k] == name),
{
    reveal_strlit("Host ");
    reveal_strlit("host ");
    let t = trim(line);
    if t.len() >= 5 {
        let head = t.take(5);
        if names_at(line, k, name) {
            assert(head =~= "Host "@ || head =~= "host "@) by {
                if t[0] == 'H' {
                    assert(head =~= "Host "@);
                } else {
                    assert(head =~= "host "@);
                }
            }
        }
        if head == "Host "@ || head == "host "@ {
            assert(t[0] == head[0] && t[1] == head[1] && t[2] == head[2] && t[3] == head[3] && t[4]
                == head[4]);
        }
    }
}

proof fn lemma_extended(known: Seq<Seq<char>>, more: Seq<Seq<char>>)
    ensures
        known.len() <= extended(known, more).len(),
        forall|i: int| 0 <= i < known.len() ==> #[trigger] extended(known, more)[i] == known[i],
        forall|k: int|
            0 <= k < more.len() && plain_name(#[trigger] more[k]) ==> extended(
                known,
                more,
            ).contains(more[k]),
        forall|i: int|
            known.len() <= i < extended(known, more).len() ==> plain_name(
                #[trigger] extended(known, more)[i],
            ) && more.contains(extended(known, more)[i]),
    decreases more.len(),
{
    if more.len() > 0 {
        let less = more.drop_last();
        let before = extended(known, less);
        let after = extended(known, more);
        lemma_extended(known, less);
        lemma_pattern(more.last());
        assert forall|k: int| 0 <= k < more.len() && plain_name(
            #[trigger] more[k],
        ) implies after.contains(more[k]) by {
            if k < more.len() - 1 {
                assert(less[k] == more[k]);
                assert(before.contains(less[k]));
                let j = choose|j: int| 0 <= j < before.len() && before[j] == more[k];
                assert(after[j] == more[k]);
            } else if before.contains(more.last()) {
                assert(after == before);
            } else {
                assert(after[after.len() - 1] == more[k]);
            }
        }
        assert forall|i: int| known.len() <= i < after.len() implies plain_name(
            #[trigger] after[i],
        ) && more.contains(after[i]) by {
            if i < before.len() {
                assert(after[i] == before[i]);
                assert(less.contains(before[i]));
                let j = choose|j: int| 0 <= j < less.len() && less[j] == before[i];
                assert(more[j] == after[i]);
            } else {
                assert(after[i] == more.last());
                assert(more[more.len() - 1] == after[i]);
            }
        }
    }
}

proof fn lemma_names_in(rows: Seq<Seq<char>>, n: int)
    requires
        0 <= n <= rows.len(),
    ensures
        forall|r: int, k: int, name: Seq<char>|
            0 <= r < n && plain_name(name) && #[trigger] names_at(rows[r], k, name) ==> names_in(
                rows,
                n,
            ).contains(name),
        forall|i: int|
            0 <= i < names_in(rows, n).len() ==> plain_name(#[trigger] names_in(rows, n)[i])
                && named_in(rows, n, names_in(rows, n)[i]),
    decreases n,
{
    if n > 0 {
        lemma_names_in(rows, n - 1);
        let known = names_in(rows, n - 1);
        let more = section_names(trim(rows[n - 1]));
        let after = names_in(rows, n);
        lemma_extended(known, more);
        assert forall|r: int, k: int, name: Seq<char>|
            0 <= r < n && plain_name(name) && #[trigger] names_at(
                rows[r],
                k,
                name,
            ) implies after.contains(name) by {
            if r < n - 1 {
                assert(known.contains(name));
                let j = choose|j: int| 0 <= j < known.len() && known[j] == name;
                assert(after[j] == name);
            } else {
                lemma_section_names(rows[n - 1], k, name);
                assert(more[k] == name);
            }
        }
        assert forall|i: int| 0 <= i < after.len() implies plain_name(#[trigger] after[i])
            && named_in(rows, n, after[i]) by {
            if i < known.len() {
                assert(after[i] == known[i]);
                assert(named_in(rows, n - 1, known[i]));
                let (r, k) = choose|r: int, k: int|
                    0 <= r < n - 1 && #[trigger] names_at(rows[r], k, known[i]);
                assert(names_at(rows[r], k, after[i]));
            } else {
                let k = choose|k: int| 0 <= k < more.len() && more[k] == after[i];
                lemma_section_names(rows[n - 1], k, after[i]);
                assert(names_at(rows[n - 1], k, after[i]));
            }
        }
    }
}

/// Whether one of the first `n` lines names that host.
pub open spec fn named_in(rows: Seq<Seq<char>>, n: int, name: Seq<char>) -> bool {
    exists|r: int, k: int| 0 <= r < n && #[trigger] names_at(rows[r], k, name)
}

/// The hosts of a text are the names in its `Host` lines that are no patterns, and no others.
pub proof fn lemma_host_names(content: Seq<char>, name: Seq<char>)
    ensures
        host_names(content).contains(name) <==> plain_name(name) && named_in(
            lines(content),
            lines(content).len() as int,
            name,
        ),
{
    let rows = lines(content);
    let n = rows.len() as int;
    lemma_names_in(rows, n);
    if host_names(content).contains(name) {
        let i = choose|i: int| 0 <= i < host_names(content).len() && host_names(content)[i] == name;
        assert(plain_name(names_in(rows, n)[i]));
    }
}

/// The hosts of the first lines come before those of the lines behind them.
pub proof fn lemma_host_order(rows: Seq<Seq<char>>, m: int, n: int)
    requires
        0 <= m <= n <= rows.len(),
    ensures
        names_in(rows, m).len() <= names_in(rows, n).len(),
        forall|i: int|
            0 <= i < names_in(rows, m).len() ==> #[trigger] names_in(rows, n)[i] == names_in(
                rows,
                m,
            )[i],
    decreases n - m,
{
    if m < n {
        lemma_host_order(rows, m, n - 1);
        lemma_extended(names_in(rows, n - 1), section_names(trim(rows[n - 1])));
    }
}

/// The hosts of one line come in the order of the line: the last new one is the last.
pub proof fn lemma_host_order_in_line(known: Seq<Seq<char>>, more: Seq<Seq<char>>, name: Seq<char>)
    requires
        plain_name(name),
        !known.contains(name),
        !more.contains(name),
    ensures
        extended(known, more.push(name)) == extended(known, more).push(name),
{
    lemma_pattern(name);
    lemma_extended(known, more);
    assert(more.push(name).drop_last() =~= more);
    let before = extended(known, more);
    if before.contains(name) {
        let i = choose|i: int| 0 <= i < before.len() && before[i] == name;
        if i < known.len() {
            assert(known[i] == name);
        } else {
            assert(more.contains(before[i]));
        }
    }
}

// ---------- Paths ----------

proof fn lemma_default_key(env: EnvironmentView)
    ensures
        default_key(env).base == (if env.home is Some {
            env.home->0
        } else {
            Seq::empty()
        }),
        default_key(env).below =~= seq![encode_utf8(".ssh/id_ed25519"@)],
{
}

/// Where files lie. The key is below the home directory; the configuration of this program in
/// the directory that is named for it, or else below that for configurations, or else below
/// the home directory; that of SSH below the home directory.
pub proof fn lemma_files(env: EnvironmentView)
    ensures
        default_key(env).base == (if env.home is Some {
            env.home->0
        } else {
            Seq::empty()
        }),
        default_key(env).below == seq![encode_utf8(".ssh/id_ed25519"@)],
        env.config_dir is Some ==> config_file(env).base == encode_utf8(env.config_dir->0)
            && config_file(env).below == seq![encode_utf8("config.json"@)],
        env.config_dir is None && env.xdg_config_home is Some ==> config_file(env).base
            == env.xdg_config_home->0 && config_file(env).below == seq![
            encode_utf8("mtui"@),
            encode_utf8("config.json"@),
        ],
        env.config_dir is None && env.xdg_config_home is None && env.home is Some ==> config_file(
            env,
        ).base == env.home->0 && config_file(env).below == seq![
            encode_utf8(".config"@),
            encode_utf8("mtui"@),
            encode_utf8("config.json"@),
        ],
        env.config_dir is None && env.xdg_config_home is None && env.home is None ==> config_file(
            env,
        ).base == encode_utf8("mtui_config.json"@) && config_file(env).below.len() == 0,
        env.home is None ==> ssh_config_file(env) is None,
        env.home is Some ==> ssh_config_file(env) is Some && ssh_config_file(env)->0.base
            == env.home->0 && ssh_config_file(env)->0.below == seq![encode_utf8(".ssh/config"@)],
{
    lemma_default_key(env);
    let c = config_file(env).below;
    assert(env.config_dir is Some ==> c =~= seq![encode_utf8("config.json"@)]);
    assert(env.config_dir is None && env.xdg_config_home is Some ==> c =~= seq![
        encode_utf8("mtui"@),
        encode_utf8("config.json"@),
    ]);
    assert(env.config_dir is None && env.xdg_config_home is None && env.home is Some ==> c =~= seq![
        encode_utf8(".config"@),
        encode_utf8("mtui"@),
        encode_utf8("config.json"@),
    ]);
    if env.home is Some {
        assert(ssh_config_file(env)->0.below =~= seq![encode_utf8(".ssh/config"@)]);
    }
}

/// A byte that stands between the parts of a path.
pub open spec fn parts_at(b: u8, backslash: bool) -> bool {
    b == 0x2f || (backslash && b == 0x5c)
}

/// Whether a part of a path is one that names something: it is neither empty nor a dot, and
/// nothing in it stands between parts.
pub open spec fn naming_part(part: Seq<u8>, backslash: bool) -> bool {
    &&& part.len() > 0
    &&& part != seq![0x2eu8]
    &&& forall|i: int| 0 <= i < part.len() ==> !parts_at(#[trigger] part[i], backslash)
}

proof fn lemma_naming_start(part: Seq<u8>, more: Seq<u8>, backslash: bool)
    requires
        naming_part(part, backslash),
        more.len() > 0 ==> parts_at(more[0], backslash),
    ensures
        without_idle_start(part + more, backslash) == part + more,
{
    let s = part + more;
    assert forall|j: int| 0 <= j < part.len() implies !crate::paths::is_separator(
        #[trigger] s[j],
        backslash,
    ) by {
        assert(s[j] == part[j]);
    }
    lemma_first_end(s, backslash, part.len() as int);
    assert(s.take(part.len() as int) =~= part);
    assert(seq!['.' as u8] =~= seq![0x2eu8]);
}

proof fn lemma_first_end(s: Seq<u8>, backslash: bool, n: int)
    requires
        0 <= n <= s.len(),
        forall|j: int| 0 <= j < n ==> !crate::paths::is_separator(#[trigger] s[j], backslash),
        n < s.len() ==> crate::paths::is_separator(s[n], backslash),
    ensures
        crate::paths::first_end(s, backslash) == n,
    decreases n,
{
    if n > 0 {
        assert(!crate::paths::is_separator(s[0], backslash));
        let t = s.skip(1);
        assert forall|j: int| 0 <= j < n - 1 implies !crate::paths::is_separator(
            #[trigger] t[j],
            backslash,
        ) by {
            assert(t[j] == s[j + 1]);
        }
        lemma_first_end(t, backslash, n - 1);
    }
}

proof fn lemma_last_start(s: Seq<u8>, backslash: bool, n: int)
    requires
        0 <= n <= s.len(),
        forall|j: int| n <= j < s.len() ==> !crate::paths::is_separator(#[trigger] s[j], backslash),
        n > 0 ==> crate::paths::is_separator(s[n - 1], backslash),
    ensures
        crate::paths::last_start(s, backslash) == n,
    decreases s.len() - n,
{
    if n < s.len() {
        assert(!crate::paths::is_separator(s[s.len() - 1], backslash));
        lemma_last_start(s.drop_last(), backslash, n);
    }
}

proof fn lemma_naming_end(less: Seq<u8>, part: Seq<u8>, backslash: bool)
    requires
        naming_part(part, backslash),
        less.len() > 0 ==> parts_at(less.last(), backslash),
    ensures
        without_idle_end(less + part, backslash) == less + part,
{
    let s = less + part;
    let n = less.len() as int;
    assert forall|j: int| n <= j < s.len() implies !crate::paths::is_separator(
        #[trigger] s[j],
        backslash,
    ) by {
        assert(s[j] == part[j - n]);
    }
    if n > 0 {
        assert(s[n - 1] == less.last());
    }
    lemma_last_start(s, backslash, n);
    assert(s.skip(n) =~= part);
    assert(seq!['.' as u8] =~= seq![0x2eu8]);
}

/// A path below `~` lies below the home directory: what follows `~` is joined to it as it is,
/// from its first part that names something to its last one. Any other path, and one where
/// there is no home directory, is left as it is.
pub proof fn lemma_tilde(
    first: Seq<u8>,
    middle: Seq<u8>,
    last: Seq<u8>,
    separator: u8,
    env: EnvironmentView,
)
    requires
        parts_at(separator, env.backslash),
        naming_part(first, env.backslash),
        naming_part(last, env.backslash),
        middle.len() > 0,
        parts_at(middle[0], env.backslash),
        parts_at(middle.last(), env.backslash),
    ensures
        env.home is Some ==> plain_path(
            seq![0x7eu8, separator] + first + middle + last,
        ).expanded(env) == (FilePathView { base: env.home->0, below: seq![first + middle + last] }),
        env.home is Some ==> plain_path(seq![0x7eu8, separator] + first).expanded(env) == (
        FilePathView { base: env.home->0, below: seq![first] }),
        env.home is Some ==> plain_path(seq![0x7eu8]).expanded(env) == (FilePathView {
            base: env.home->0,
            below: seq![Seq::<u8>::empty()],
        }),
{
    let b = env.backslash;
    if env.home is Some {
        let rest = first + middle + last;
        let path = seq![0x7eu8, separator] + first + middle + last;
        assert(path.skip(2) =~= first + (middle + last));
        assert((middle + last)[0] == middle[0]);
        lemma_naming_start(first, middle + last, b);
        assert(first + (middle + last) =~= (first + middle) + last);
        assert((first + middle).last() == middle.last());
        lemma_naming_end(first + middle, last, b);
        assert(seq![rest] + Seq::<Seq<u8>>::empty() =~= seq![rest]);
        assert(without_idle_pieces(seq![rest], b) =~= seq![rest]);
        let short = seq![0x7eu8, separator] + first;
        let none = Seq::<u8>::empty();
        assert(short.skip(2) =~= first + none);
        assert(none + first =~= first);
        assert(first + none =~= first);
        lemma_naming_start(first, none, b);
        lemma_naming_end(none, first, b);
        assert(seq![first] + Seq::<Seq<u8>>::empty() =~= seq![first]);
        assert(without_idle_pieces(seq![first], b) =~= seq![first]);
        assert(seq![none] + Seq::<Seq<u8>>::empty() =~= seq![none]);
        assert(without_idle_end(none, b) =~= none) by {
            assert(crate::paths::last_start(none, b) == 0);
        }
        assert(without_idle_pieces(seq![none], b) =~= seq![none]);
    }
}

/// A path that does not begin with `~` as a part of its own is left as it is, and so is every
/// path where there is no home directory.
pub proof fn lemma_no_tilde(path: Seq<u8>, env: EnvironmentView)
    requires
        env.home is None || path.len() == 0 || path[0] != 0x7e || (path.len() > 1 && !parts_at(
            path[1],
            env.backslash,
        )),
    ensures
        plain_path(path).expanded(env) == plain_path(path),
{
}

/// Parts of a path that name nothing, which are empty parts and dots, are left out at its start
/// and at its end.
pub proof fn lemma_idle_parts(s: Seq<u8>, separator: u8, backslash: bool)
    requires
        parts_at(separator, backslash),
    ensures
        without_idle_start(seq![separator] + s, backslash) == without_idle_start(s, backslash),
        without_idle_start(seq![0x2eu8, separator] + s, backslash) == without_idle_start(
            s,
            backslash,
        ),
        without_idle_end(s + seq![separator], backslash) == without_idle_end(s, backslash),
        without_idle_end(s + seq![separator, 0x2eu8], backslash) == without_idle_end(s, backslash),
        without_idle_start(seq![0x2eu8], backslash).len() == 0,
        without_idle_end(seq![0x2eu8], backslash).len() == 0,
{
    let b = backslash;
    let dot = seq![0x2eu8];
    assert(seq!['.' as u8] =~= dot);
    let one = seq![separator] + s;
    lemma_first_end(one, b, 0);
    assert(one.skip(1) =~= s);
    assert(one.take(0).len() == 0);
    let two = seq![0x2eu8, separator] + s;
    lemma_first_end(two, b, 1);
    assert(two.take(1) =~= dot);
    assert(two.skip(2) =~= s);
    let last = s + seq![separator];
    let n = s.len() as int;
    lemma_last_start(last, b, n + 1);
    assert(last.skip(n + 1).len() == 0);
    assert(last.take(n) =~= s);
    let ends = s + seq![separator, 0x2eu8];
    lemma_last_start(ends, b, n + 1);
    assert(ends.skip(n + 1) =~= dot);
    assert(ends.take(n) =~= s);
    lemma_first_end(dot, b, 1);
    assert(dot.take(1) =~= dot);
    lemma_last_start(dot, b, 0);
    assert(dot.skip(0) =~= dot);
}

/// A home directory is known where it is named by something.
pub proof fn lemma_known_home(env: EnvironmentView)
    ensures
        env.home is Some && env.home->0.len() > 0 ==> env.known_home() == env.home,
        env.home is None || env.home->0.len() == 0 ==> env.known_home() is None,
{
}

} // verus!
