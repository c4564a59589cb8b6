//! What is kept from one run to the next: the hosts and their tunnels.

use vstd::prelude::*;

use crate::target::ConnectParams;
use crate::target::ConnectParamsView;
use crate::tunnel::quoted;
use crate::tunnel::write_pair;
use crate::tunnel::write_quoted;

verus! {

/// A tunnel as it is kept.
#[derive(Debug, PartialEq, Eq)]
pub struct SavedTunnel {
    pub local_port: u16,
    pub remote_host: String,
    pub remote_port: u32,
    pub enabled: bool,
}

/// A kept tunnel as a mathematical value.
#[verifier::ext_equal]
pub struct SavedTunnelView {
    pub local_port: u16,
    pub remote_host: Seq<char>,
    pub remote_port: u32,
    pub enabled: bool,
}

impl View for SavedTunnel {
    type V = SavedTunnelView;

    open spec fn view(&self) -> SavedTunnelView {
        SavedTunnelView {
            local_port: self.local_port,
            remote_host: self.remote_host@,
            remote_port: self.remote_port,
            enabled: self.enabled,
        }
    }
}

impl Clone for SavedTunnel {
    fn clone(&self) -> (r: SavedTunnel)
        ensures
            r@ == self@,
    {
        SavedTunnel {
            local_port: self.local_port,
            remote_host: self.remote_host.clone(),
            remote_port: self.remote_port,
            enabled: self.enabled,
        }
    }
}

/// The values of a list of kept tunnels.
pub open spec fn saved_tunnel_views(v: Seq<SavedTunnel>) -> Seq<SavedTunnelView> {
    v.map_values(|t: SavedTunnel| t@)
}

/// Whether a kept tunnel runs where nothing is said about it.
pub fn default_true() -> (r: bool)
    ensures
        r,
{
    true
}

/// A host as it is kept.
#[derive(Debug, PartialEq, Eq)]
pub struct SavedHost {
    pub params: ConnectParams,
    pub tunnels: Vec<SavedTunnel>,
}

/// A kept host as a mathematical value.
#[verifier::ext_equal]
pub struct SavedHostView {
    pub params: ConnectParamsView,
    pub tunnels: Seq<SavedTunnelView>,
}

impl View for SavedHost {
    type V = SavedHostView;

    open spec fn view(&self) -> SavedHostView {
        SavedHostView { params: self.params@, tunnels: saved_tunnel_views(self.tunnels@) }
    }
}

impl Clone for SavedHost {
    fn clone(&self) -> (r: SavedHost)
        ensures
            r@ == self@,
    {
        let mut tunnels: Vec<SavedTunnel> = Vec::new();
        for i in 0..self.tunnels.len()
            invariant
                tunnels@.len() == i,
                forall|k: int| 0 <= k < i ==> #[trigger] tunnels@[k]@ == self.tunnels@[k]@,
        {
            tunnels.push(self.tunnels[i].clone());
        }
        assert(saved_tunnel_views(tunnels@) =~= saved_tunnel_views(self.tunnels@));
        SavedHost { params: self.params.clone(), tunnels }
    }
}

/// The values of a list of kept hosts.
pub open spec fn saved_host_views(v: Seq<SavedHost>) -> Seq<SavedHostView> {
    v.map_values(|h: SavedHost| h@)
}

/// Everything that is kept.
#[derive(Debug, PartialEq, Eq)]
pub struct AppConfig {
    pub hosts: Vec<SavedHost>,
}

impl View for AppConfig {
    type V = Seq<SavedHostView>;

    open spec fn view(&self) -> Seq<SavedHostView> {
        saved_host_views(self.hosts@)
    }
}

impl Clone for AppConfig {
    fn clone(&self) -> (r: AppConfig)
        ensures
            r@ == self@,
    {
        let mut hosts: Vec<SavedHost> = Vec::new();
        for i in 0..self.hosts.len()
            invariant
                hosts@.len() == i,
                forall|k: int| 0 <= k < i ==> #[trigger] hosts@[k]@ == self.hosts@[k]@,
        {
            hosts.push(self.hosts[i].clone());
        }
        let r = AppConfig { hosts };
        assert(r@ =~= self@);
        r
    }
}

impl Default for AppConfig {
    fn default() -> (r: AppConfig)
        ensures
            r@ == Seq::<SavedHostView>::empty(),
    {
        let r = AppConfig { hosts: Vec::new() };
        assert(r@ =~= Seq::empty());
        r
    }
}

// ---------- Reading ----------

/// What came of reading the configuration file.
pub enum LoadOutcome {
    /// There is no such file.
    Missing,
    /// It could not be read; the error.
    Unreadable(String),
    /// It is not in the right form; the error.
    Malformed(String),
    /// What it says.
    Parsed(AppConfig),
}

/// What is warned of when the configuration is read from `path`.
pub open spec fn load_warning(path: Seq<char>, outcome: LoadOutcome) -> Option<Seq<char>> {
    match outcome {
        LoadOutcome::Unreadable(error) => Some(
            quoted("[警告] 读取配置文件 "@, path, " 失败："@) + error@,
        ),
        LoadOutcome::Malformed(error) => Some(
            quoted("[警告] 解析配置文件 "@, path, " 失败："@) + error@,
        ),
        _ => None,
    }
}

/// What the configuration file says, and nothing where it cannot be used. An unusable file is
/// warned of; one that does not exist is not.
pub fn load_config(path: &str, outcome: LoadOutcome) -> (r: (AppConfig, Option<String>))
    ensures
        match outcome {
            LoadOutcome::Parsed(config) => r.0@ == config@,
            _ => r.0@ == Seq::<SavedHostView>::empty(),
        },
        match (r.1, load_warning(path@, outcome)) {
            (Some(warning), Some(expected)) => warning@ == expected,
            (None, None) => true,
            _ => false,
        },
{
    match outcome {
        LoadOutcome::Missing => (AppConfig::default(), None),
        LoadOutcome::Unreadable(error) => {
            let mut warning = write_quoted("[警告] 读取配置文件 ", path, " 失败：");
            warning.append(error.as_str());
            (AppConfig::default(), Some(warning))
        },
        LoadOutcome::Malformed(error) => {
            let mut warning = write_quoted("[警告] 解析配置文件 ", path, " 失败：");
            warning.append(error.as_str());
            (AppConfig::default(), Some(warning))
        },
        LoadOutcome::Parsed(config) => (config, None),
    }
}

// ---------- Writing ----------

/// The steps of writing the configuration file, each of which can fail: it is written under
/// another name first and takes its place last.
pub enum SaveOutcome {
    Saved,
    /// It could not be put into its form; the error.
    NotSerialized(String),
    /// The other file could not be written; the error.
    NotWritten(String),
    /// The other file could not take its place; the error.
    NotRenamed(String),
}

/// Why the configuration file was not written.
pub open spec fn save_error(outcome: SaveOutcome) -> Option<Seq<char>> {
    match outcome {
        SaveOutcome::Saved => None,
        SaveOutcome::NotSerialized(error) => Some("序列化配置失败："@ + error@),
        SaveOutcome::NotWritten(error) => Some("写入配置文件失败："@ + error@),
        SaveOutcome::NotRenamed(error) => Some("重命名配置文件失败："@ + error@),
    }
}

/// Why the configuration file was not written.
pub fn save_config(outcome: SaveOutcome) -> (r: Result<(), String>)
    ensures
        match (r, save_error(outcome)) {
            (Ok(_), None) => true,
            (Err(message), Some(expected)) => message@ == expected,
            _ => false,
        },
{
    match outcome {
        SaveOutcome::Saved => Ok(()),
        SaveOutcome::NotSerialized(error) => Err(write_pair("序列化配置失败：", error.as_str())),
        SaveOutcome::NotWritten(error) => Err(write_pair("写入配置文件失败：", error.as_str())),
        SaveOutcome::NotRenamed(error) => Err(
            write_pair("重命名配置文件失败：", error.as_str()),
        ),
    }
}

/// What is warned of when the configuration was not written to `path`.
pub fn save_warning(path: &str, error: &str) -> (s: String)
    ensures
        s@ == quoted("[警告] 保存配置至 "@, path@, " 失败："@) + error@,
{
    let mut s = write_quoted("[警告] 保存配置至 ", path, " 失败：");
    s.append(error);
    s
}

// ---------- Laws ----------

/// What goes wrong with the configuration file is said with what it was and with the error: a
/// file that is not there is no mistake, and neither is one that was read or written.
pub proof fn lemma_file_messages(path: Seq<char>, error: String, config: AppConfig)
    ensures
        load_warning(path, LoadOutcome::Missing) is None,
        load_warning(path, LoadOutcome::Parsed(config)) is None,
        load_warning(path, LoadOutcome::Unreadable(error)) == Some(
            "[警告] 读取配置文件 "@ + path + " 失败："@ + error@,
        ),
        load_warning(path, LoadOutcome::Malformed(error)) == Some(
            "[警告] 解析配置文件 "@ + path + " 失败："@ + error@,
        ),
        save_error(SaveOutcome::Saved) is None,
        save_error(SaveOutcome::NotSerialized(error)) == Some("序列化配置失败："@ + error@),
        save_error(SaveOutcome::NotWritten(error)) == Some("写入配置文件失败："@ + error@),
        save_error(SaveOutcome::NotRenamed(error)) == Some("重命名配置文件失败："@ + error@),
{
}

} // verus!
