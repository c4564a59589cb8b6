//! Paths, and where the files of this program lie.

use std::path::PathBuf;

use vstd::prelude::*;
use vstd::slice::slice_subrange;
use vstd::utf8::encode_utf8;

verus! {

// ---------- Paths of the machine ----------

/// A path of the standard library.
#[verifier::external_type_specification]
#[verifier::external_body]
pub struct ExPathBuf(PathBuf);

/// The bytes of a path, in the encoding of the machine.
pub uninterp spec fn path_bytes(path: PathBuf) -> Seq<u8>;

/// `OsStr::as_encoded_bytes` over the whole of a path: the bytes of the path, which rest on
/// nothing but the path.
#[verifier::external_body]
pub(crate) fn encoded(path: &PathBuf) -> (r: Vec<u8>)
    ensures
        r@ == path_bytes(*path),
{
    path.as_os_str().as_encoded_bytes().to_vec()
}

/// The bytes of an optional path.
pub open spec fn optional_path_bytes(path: Option<PathBuf>) -> Option<Seq<u8>> {
    match path {
        Some(path) => Some(path_bytes(path)),
        None => None,
    }
}

/// A copy of some bytes.
pub fn copy_bytes(bytes: &[u8]) -> (r: Vec<u8>)
    ensures
        r@ == bytes@,
{
    let mut r: Vec<u8> = Vec::new();
    for i in 0..bytes.len()
        invariant
            r@ == bytes@.take(i as int),
    {
        r.push(bytes[i]);
        assert(bytes@.take(i + 1) =~= bytes@.take(i as int).push(bytes@[i as int]));
    }
    assert(bytes@.take(bytes@.len() as int) =~= bytes@);
    r
}

/// The values of a list of byte strings.
pub open spec fn byte_views(v: Seq<Vec<u8>>) -> Seq<Seq<u8>> {
    v.map_values(|b: Vec<u8>| b@)
}

/// A copy of a list of byte strings.
pub fn copy_byte_strings(v: &Vec<Vec<u8>>) -> (r: Vec<Vec<u8>>)
    ensures
        byte_views(r@) == byte_views(v@),
{
    let mut r: Vec<Vec<u8>> = Vec::new();
    for i in 0..v.len()
        invariant
            r@.len() == i,
            forall|k: int| 0 <= k < i ==> (#[trigger] r@[k])@ == v@[k]@,
    {
        r.push(copy_bytes(v[i].as_slice()));
    }
    assert(byte_views(r@) =~= byte_views(v@));
    r
}

// ---------- Paths of this program ----------

/// A path: a base, and what is joined to it, one after the other. All of it is in the encoding
/// of the machine, and the machine has its own way of joining.
#[derive(Debug, PartialEq, Eq)]
pub struct FilePath {
    pub base: Vec<u8>,
    pub below: Vec<Vec<u8>>,
}

/// A path as a mathematical value.
#[verifier::ext_equal]
pub struct FilePathView {
    pub base: Seq<u8>,
    pub below: Seq<Seq<u8>>,
}

impl View for FilePath {
    type V = FilePathView;

    open spec fn view(&self) -> FilePathView {
        FilePathView { base: self.base@, below: byte_views(self.below@) }
    }
}

impl Clone for FilePath {
    fn clone(&self) -> (r: FilePath)
        ensures
            r@ == self@,
    {
        FilePath { base: copy_bytes(self.base.as_slice()), below: copy_byte_strings(&self.below) }
    }
}

/// A path to which nothing is joined.
pub open spec fn plain_path(base: Seq<u8>) -> FilePathView {
    FilePathView { base, below: Seq::empty() }
}

impl FilePathView {
    /// The path with a text joined to it.
    pub open spec fn joined(self, text: Seq<char>) -> FilePathView {
        FilePathView { below: self.below.push(encode_utf8(text)), ..self }
    }
}

impl FilePath {
    /// A path to which nothing is joined.
    pub fn plain(base: Vec<u8>) -> (r: FilePath)
        ensures
            r@ == plain_path(base@),
    {
        let r = FilePath { base, below: Vec::new() };
        assert(r@.below =~= Seq::empty());
        r
    }

    /// The path that a text names.
    pub fn of_text(text: &str) -> (r: FilePath)
        ensures
            r@ == plain_path(encode_utf8(text@)),
    {
        FilePath::plain(copy_bytes(text.as_bytes()))
    }

    /// The path with a text joined to it.
    pub fn join(self, text: &str) -> (r: FilePath)
        ensures
            r@ == self@.joined(text@),
    {
        let ghost before = self@;
        let FilePath { base, below } = self;
        let mut below = below;
        below.push(copy_bytes(text.as_bytes()));
        let r = FilePath { base, below };
        assert(r@.below =~= before.below.push(encode_utf8(text@)));
        r
    }
}

/// The value of an optional path.
pub open spec fn path_view(path: Option<FilePath>) -> Option<FilePathView> {
    match path {
        Some(path) => Some(path@),
        None => None,
    }
}

/// A copy of an optional path.
pub fn copy_path(path: &Option<FilePath>) -> (r: Option<FilePath>)
    ensures
        path_view(r) == path_view(*path),
{
    match path {
        Some(path) => Some(path.clone()),
        None => None,
    }
}

// ---------- The environment ----------

/// What the program finds in its environment.
pub struct Environment {
    /// `HOME`
    pub home: Option<PathBuf>,
    /// `USER`
    pub user: Option<String>,
    /// `LOGNAME`
    pub logname: Option<String>,
    /// `MTUI_CONFIG_DIR`
    pub config_dir: Option<String>,
    /// `XDG_CONFIG_HOME`
    pub xdg_config_home: Option<PathBuf>,
    /// Whether the machine takes not only `/` but also a backslash for what stands between
    /// the parts of a path.
    pub backslash: bool,
}

/// An environment as a mathematical value.
#[verifier::ext_equal]
pub struct EnvironmentView {
    pub home: Option<Seq<u8>>,
    pub user: Option<Seq<char>>,
    pub logname: Option<Seq<char>>,
    pub config_dir: Option<Seq<char>>,
    pub xdg_config_home: Option<Seq<u8>>,
    pub backslash: bool,
}

/// The text of an optional string.
pub open spec fn text_of(s: Option<String>) -> Option<Seq<char>> {
    match s {
        Some(s) => Some(s@),
        None => None,
    }
}

impl View for Environment {
    type V = EnvironmentView;

    open spec fn view(&self) -> EnvironmentView {
        EnvironmentView {
            home: optional_path_bytes(self.home),
            user: text_of(self.user),
            logname: text_of(self.logname),
            config_dir: text_of(self.config_dir),
            xdg_config_home: optional_path_bytes(self.xdg_config_home),
            backslash: self.backslash,
        }
    }
}

/// A copy of an optional string.
pub fn copy_text(s: &Option<String>) -> (r: Option<String>)
    ensures
        text_of(r) == text_of(*s),
{
    match s {
        Some(s) => Some(s.clone()),
        None => None,
    }
}

impl EnvironmentView {
    /// The home directory, which an empty path does not name.
    pub open spec fn known_home(self) -> Option<Seq<u8>> {
        match self.home {
            Some(home) => if home.len() > 0 {
                Some(home)
            } else {
                None
            },
            None => None,
        }
    }
}

/// The bytes of an optional path that is only lent.
pub open spec fn lent_path_bytes(path: Option<&PathBuf>) -> Option<Seq<u8>> {
    match path {
        Some(path) => Some(path_bytes(*path)),
        None => None,
    }
}

impl Environment {
    /// The home directory, which an empty path does not name.
    pub fn known_home(&self) -> (r: Option<&PathBuf>)
        ensures
            lent_path_bytes(r) == self@.known_home(),
    {
        match &self.home {
            Some(home) => if encoded(home).len() == 0 {
                None
            } else {
                Some(home)
            },
            None => None,
        }
    }
}

/// The login name that the environment gives.
pub open spec fn login_name(env: EnvironmentView) -> Seq<char> {
    match (env.user, env.logname) {
        (Some(user), _) => user,
        (None, Some(logname)) => logname,
        (None, None) => "root"@,
    }
}

/// The login name that the environment gives, `root` where it gives none.
pub fn user_name(env: &Environment) -> (r: String)
    ensures
        r@ == login_name(env@),
{
    match (&env.user, &env.logname) {
        (Some(user), _) => user.clone(),
        (None, Some(logname)) => logname.clone(),
        (None, None) => "root".to_string(),
    }
}

// ---------- The home directory ----------

/// Whether a byte stands between the parts of a path.
pub open spec fn is_separator(b: u8, backslash: bool) -> bool {
    b == '/' as u8 || (backslash && b == '\\' as u8)
}

/// Where the first part of a path ends.
pub open spec fn first_end(s: Seq<u8>, backslash: bool) -> int
    decreases s.len(),
{
    if s.len() == 0 || is_separator(s[0], backslash) {
        0
    } else {
        1 + first_end(s.skip(1), backslash)
    }
}

/// Where the last part of a path begins.
pub open spec fn last_start(s: Seq<u8>, backslash: bool) -> int
    decreases s.len(),
{
    if s.len() == 0 || is_separator(s.last(), backslash) {
        s.len() as int
    } else {
        last_start(s.drop_last(), backslash)
    }
}

proof fn lemma_first_end_bounds(s: Seq<u8>, backslash: bool)
    ensures
        0 <= first_end(s, backslash) <= s.len(),
    decreases s.len(),
{
    if s.len() > 0 && !is_separator(s[0], backslash) {
        lemma_first_end_bounds(s.skip(1), backslash);
    }
}

proof fn lemma_last_start_bounds(s: Seq<u8>, backslash: bool)
    ensures
        0 <= last_start(s, backslash) <= s.len(),
    decreases s.len(),
{
    if s.len() > 0 && !is_separator(s.last(), backslash) {
        lemma_last_start_bounds(s.drop_last(), backslash);
    }
}

/// Whether a part of a path names nothing: it is empty, or the directory itself.
pub open spec fn idle_part(part: Seq<u8>) -> bool {
    part.len() == 0 || part == seq!['.' as u8]
}

/// A path without the idle parts at its start.
pub open spec fn without_idle_start(s: Seq<u8>, backslash: bool) -> Seq<u8>
    decreases s.len(),
    via idle_start_shrinks
{
    let n = first_end(s, backslash);
    if s.len() == 0 || !idle_part(s.take(n)) {
        s
    } else if n == s.len() {
        Seq::empty()
    } else {
        without_idle_start(s.skip(n + 1), backslash)
    }
}

#[via_fn]
proof fn idle_start_shrinks(s: Seq<u8>, backslash: bool) {
    lemma_first_end_bounds(s, backslash);
}

/// A path without the idle parts at its end.
pub open spec fn without_idle_end(s: Seq<u8>, backslash: bool) -> Seq<u8>
    decreases s.len(),
    via idle_end_shrinks
{
    let i = last_start(s, backslash);
    if !idle_part(s.skip(i)) {
        s
    } else if i == 0 {
        Seq::empty()
    } else {
        without_idle_end(s.take(i - 1), backslash)
    }
}

#[via_fn]
proof fn idle_end_shrinks(s: Seq<u8>, backslash: bool) {
    lemma_last_start_bounds(s, backslash);
}

/// What follows a leading part `~`, where there is one.
pub open spec fn below_tilde(s: Seq<u8>, backslash: bool) -> Option<Seq<u8>> {
    if s.len() == 0 || s[0] != '~' as u8 {
        None
    } else if s.len() == 1 {
        Some(Seq::empty())
    } else if !is_separator(s[1], backslash) {
        None
    } else {
        Some(without_idle_start(s.skip(2), backslash))
    }
}

/// Pieces of a path without the idle parts at their end, and at least one piece.
pub open spec fn without_idle_pieces(v: Seq<Seq<u8>>, backslash: bool) -> Seq<Seq<u8>>
    decreases v.len(),
{
    if v.len() == 0 {
        v
    } else {
        let last = without_idle_end(v.last(), backslash);
        if v.len() > 1 && last.len() == 0 {
            without_idle_pieces(v.drop_last(), backslash)
        } else {
            v.drop_last().push(last)
        }
    }
}

impl FilePathView {
    /// What follows a leading part `~`, where the path has one, to be joined one after the
    /// other. The path begins with the first of its pieces that is not empty.
    pub open spec fn below_tilde(self, backslash: bool) -> Option<Seq<Seq<u8>>>
        decreases self.below.len(),
    {
        if self.base.len() == 0 && self.below.len() > 0 {
            (FilePathView { base: self.below[0], below: self.below.skip(1) }).below_tilde(backslash)
        } else {
            match below_tilde(self.base, backslash) {
                Some(rest) => Some(without_idle_pieces(seq![rest] + self.below, backslash)),
                None => None,
            }
        }
    }

    /// The path, whose leading `~` stands for the home directory, where there is one.
    pub open spec fn expanded(self, env: EnvironmentView) -> FilePathView {
        match (self.below_tilde(env.backslash), env.home) {
            (Some(below), Some(home)) => FilePathView { base: home, below },
            _ => self,
        }
    }
}

fn separates(b: u8, backslash: bool) -> (r: bool)
    ensures
        r == is_separator(b, backslash),
{
    b == '/' as u8 || (backslash && b == '\\' as u8)
}

fn find_first_end(s: &[u8], backslash: bool) -> (n: usize)
    ensures
        n == first_end(s@, backslash),
        n <= s@.len(),
{
    let mut n: usize = 0;
    assert(s@.skip(0) =~= s@);
    while n < s.len() && !separates(s[n], backslash)
        invariant
            n <= s@.len(),
            first_end(s@, backslash) == n + first_end(s@.skip(n as int), backslash),
        decreases s@.len() - n,
    {
        assert(s@.skip(n as int).skip(1) =~= s@.skip(n + 1));
        n = n + 1;
    }
    n
}

fn find_last_start(s: &[u8], backslash: bool) -> (i: usize)
    ensures
        i == last_start(s@, backslash),
        i <= s@.len(),
{
    let mut i: usize = s.len();
    assert(s@.take(s@.len() as int) =~= s@);
    while i > 0 && !separates(s[i - 1], backslash)
        invariant
            i <= s@.len(),
            last_start(s@, backslash) == last_start(s@.take(i as int), backslash),
        decreases i,
    {
        assert(s@.take(i as int).drop_last() =~= s@.take(i - 1));
        i = i - 1;
    }
    i
}

fn is_idle(part: &[u8]) -> (r: bool)
    ensures
        r == idle_part(part@),
{
    if part.len() == 1 && part[0] == '.' as u8 {
        assert(part@ =~= seq!['.' as u8]);
        return true;
    }
    part.len() == 0
}

fn drop_idle_start(s: &[u8], backslash: bool) -> (r: &[u8])
    ensures
        r@ == without_idle_start(s@, backslash),
    decreases s@.len(),
{
    if s.len() == 0 {
        return s;
    }
    let len: usize = s.len();
    let n: usize = find_first_end(s, backslash);
    assert(s@.subrange(0, n as int) == s@.take(n as int));
    if !is_idle(slice_subrange(s, 0, n)) {
        s
    } else if n == len {
        assert(s@.subrange(0, 0) =~= Seq::empty());
        slice_subrange(s, 0, 0)
    } else {
        assert(s@.subrange(n + 1, s@.len() as int) == s@.skip(n + 1));
        drop_idle_start(slice_subrange(s, n + 1, len), backslash)
    }
}

fn drop_idle_end(s: &[u8], backslash: bool) -> (r: &[u8])
    ensures
        r@ == without_idle_end(s@, backslash),
    decreases s@.len(),
{
    let len: usize = s.len();
    let i: usize = find_last_start(s, backslash);
    assert(s@.subrange(i as int, s@.len() as int) == s@.skip(i as int));
    if !is_idle(slice_subrange(s, i, len)) {
        s
    } else if i == 0 {
        assert(s@.subrange(0, 0) =~= Seq::empty());
        slice_subrange(s, 0, 0)
    } else {
        assert(s@.subrange(0, i - 1) == s@.take(i - 1));
        drop_idle_end(slice_subrange(s, 0, i - 1), backslash)
    }
}

fn rest_below_tilde(s: &[u8], backslash: bool) -> (r: Option<Vec<u8>>)
    ensures
        match (r, below_tilde(s@, backslash)) {
            (Some(rest), Some(expected)) => rest@ == expected,
            (None, None) => true,
            _ => false,
        },
{
    let len: usize = s.len();
    if len == 0 || s[0] != '~' as u8 {
        None
    } else if len == 1 {
        let none: Vec<u8> = Vec::new();
        assert(none@ =~= Seq::empty());
        Some(none)
    } else if !separates(s[1], backslash) {
        None
    } else {
        assert(s@.subrange(2, s@.len() as int) == s@.skip(2));
        Some(copy_bytes(drop_idle_start(slice_subrange(s, 2, len), backslash)))
    }
}

fn drop_idle_pieces(v: &mut Vec<Vec<u8>>, backslash: bool)
    ensures
        byte_views(final(v)@) == without_idle_pieces(byte_views(old(v)@), backslash),
    decreases old(v)@.len(),
{
    let ghost all = byte_views(v@);
    if let Some(last) = v.pop() {
        assert(byte_views(v@) =~= all.drop_last());
        assert(all.last() == last@);
        let kept = drop_idle_end(last.as_slice(), backslash);
        if v.len() > 0 && kept.len() == 0 {
            drop_idle_pieces(v, backslash);
        } else {
            let ghost before = v@;
            v.push(copy_bytes(kept));
            assert(byte_views(v@) =~= byte_views(before).push(kept@));
        }
    } else {
        assert(all =~= Seq::empty());
    }
}

/// The path, whose leading `~` stands for the home directory, where there is one.
pub fn expand_tilde(path: &FilePath, env: &Environment) -> (r: FilePath)
    ensures
        r@ == path@.expanded(env@),
{
    let home = match &env.home {
        Some(home) => encoded(home),
        None => {
            return path.clone();
        },
    };
    let len: usize = path.below.len();
    let ghost below = byte_views(path.below@);
    let mut i: usize = 0;
    let mut first: &Vec<u8> = &path.base;
    assert(below.skip(0) =~= below);
    while first.len() == 0 && i < len
        invariant
            i <= len == path.below@.len(),
            below == byte_views(path.below@),
            path@.below_tilde(env.backslash) == (FilePathView {
                base: first@,
                below: below.skip(i as int),
            }).below_tilde(env.backslash),
        decreases len - i,
    {
        assert(below.skip(i as int)[0] == path.below@[i as int]@);
        assert(below.skip(i as int).skip(1) =~= below.skip(i + 1));
        first = &path.below[i];
        i = i + 1;
    }
    match rest_below_tilde(first.as_slice(), env.backslash) {
        Some(rest) => {
            let mut more: Vec<Vec<u8>> = Vec::new();
            more.push(rest);
            let ghost expected = seq![rest@] + below.skip(i as int);
            assert(byte_views(more@) =~= expected.take(1));
            let mut k: usize = i;
            while k < len
                invariant
                    i <= k <= len == path.below@.len(),
                    below == byte_views(path.below@),
                    expected == seq![rest@] + below.skip(i as int),
                    byte_views(more@) == expected.take(k - i + 1),
                decreases len - k,
            {
                let ghost before = more@;
                more.push(copy_bytes(path.below[k].as_slice()));
                assert(byte_views(more@) =~= byte_views(before).push(path.below@[k as int]@));
                assert(expected[k - i + 1] == below[k as int]);
                assert(expected.take(k - i + 2) =~= expected.take(k - i + 1).push(
                    expected[k - i + 1],
                ));
                k = k + 1;
            }
            assert(expected.take(expected.len() as int) =~= expected);
            drop_idle_pieces(&mut more, env.backslash);
            FilePath { base: home, below: more }
        },
        None => path.clone(),
    }
}

/// A path that was expanded is not expanded again, where the home directory is not itself a
/// path below `~`.
pub proof fn lemma_expanded_once(path: FilePathView, env: EnvironmentView)
    requires
        match env.home {
            Some(home) => below_tilde(home, env.backslash) is None && home.len() > 0,
            None => true,
        },
    ensures
        path.expanded(env).expanded(env) == path.expanded(env),
{
}

// ---------- Files of this program ----------

/// The key that is used where none is named.
pub open spec fn default_key(env: EnvironmentView) -> FilePathView {
    let base = match env.home {
        Some(home) => home,
        None => Seq::empty(),
    };
    plain_path(base).joined(".ssh/id_ed25519"@)
}

/// The key that is used where none is named.
pub fn default_key_path(env: &Environment) -> (r: FilePath)
    ensures
        r@ == default_key(env@),
{
    let base: Vec<u8> = match &env.home {
        Some(home) => encoded(home),
        None => Vec::new(),
    };
    assert(env.home is None ==> base@ =~= Seq::empty());
    FilePath::plain(base).join(".ssh/id_ed25519")
}

/// Where the configuration of this program lies.
pub open spec fn config_file(env: EnvironmentView) -> FilePathView {
    if env.config_dir is Some {
        plain_path(encode_utf8(env.config_dir->0)).joined("config.json"@)
    } else if env.xdg_config_home is Some {
        plain_path(env.xdg_config_home->0).joined("mtui"@).joined("config.json"@)
    } else if env.home is Some {
        plain_path(env.home->0).joined(".config"@).joined("mtui"@).joined("config.json"@)
    } else {
        plain_path(encode_utf8("mtui_config.json"@))
    }
}

/// Where the configuration of this program lies: in the directory that `MTUI_CONFIG_DIR`
/// names, or below `XDG_CONFIG_HOME`, or below the home directory, or right here.
pub fn default_config_path(env: &Environment) -> (r: FilePath)
    ensures
        r@ == config_file(env@),
{
    if let Some(dir) = &env.config_dir {
        FilePath::of_text(dir.as_str()).join("config.json")
    } else if let Some(xdg) = &env.xdg_config_home {
        FilePath::plain(encoded(xdg)).join("mtui").join("config.json")
    } else if let Some(home) = &env.home {
        FilePath::plain(encoded(home)).join(".config").join("mtui").join("config.json")
    } else {
        FilePath::of_text("mtui_config.json")
    }
}

/// Where the SSH configuration of the user lies, where there is a home directory.
pub open spec fn ssh_config_file(env: EnvironmentView) -> Option<FilePathView> {
    match env.home {
        Some(home) => Some(plain_path(home).joined(".ssh/config"@)),
        None => None,
    }
}

/// Where the SSH configuration of the user lies, where there is a home directory.
pub fn ssh_config_path(env: &Environment) -> (r: Option<FilePath>)
    ensures
        path_view(r) == ssh_config_file(env@),
{
    match &env.home {
        Some(home) => Some(FilePath::plain(encoded(home)).join(".ssh/config")),
        None => None,
    }
}

} // verus!
