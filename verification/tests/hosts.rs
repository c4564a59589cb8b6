//! All hosts together, what is kept of them, and logging in.

use mtui::commands::Action;
use mtui::commands::Command;
use mtui::commands::Need;
use mtui::config::default_true;
use mtui::config::load_config;
use mtui::config::save_config;
use mtui::config::save_warning;
use mtui::config::AppConfig;
use mtui::config::LoadOutcome;
use mtui::config::SaveOutcome;
use mtui::config::SavedHost;
use mtui::config::SavedTunnel;
use mtui::login::next_step;
use mtui::login::trust_server_key;
use mtui::login::LoginStep;
use mtui::manager::Bind;
use mtui::manager::MultiTunnelManager;
use mtui::paths::FilePath;
use mtui::ports::RemotePort;
use mtui::service::Phase;
use mtui::service::Reply;
use mtui::service::Served;
use mtui::service::Service;
use mtui::service::Trial;
use mtui::session::ConnectionStatus;
use mtui::session::Progress;
use mtui::target::AuthMethod;
use mtui::target::ConnectParams;
use mtui::tunnel::Rate;
use mtui::tunnel::Traffic;

fn params(host: &str) -> ConnectParams {
    ConnectParams {
        alias: None,
        user: "u".into(),
        host: host.into(),
        ssh_port: 22,
        auth: AuthMethod::KeyFile(FilePath::of_text("/k")),
        check_host_key: true,
    }
}

fn two_hosts() -> MultiTunnelManager {
    let mut m = MultiTunnelManager::new(FilePath::of_text("/c.json"));
    m.add_session(1, params("a"), Ok(()), 0).unwrap();
    m.add_session(2, params("b"), Ok(()), 0).unwrap();
    m
}

fn tunnel(local_port: u16, enabled: bool) -> SavedTunnel {
    SavedTunnel { local_port, remote_host: "r".into(), remote_port: 9, enabled }
}

#[test]
fn a_host_is_added_once() {
    let mut m = two_hosts();
    assert!(m.has_session("u@a:22"));
    assert!(!m.has_session("u@c:22"));
    let refusal = Err("主机 [u@a:22] 已经连接，请勿重复连接".to_string());
    assert_eq!(m.may_add_session(&params("a")), refusal);
    assert_eq!(m.add_session(3, params("a"), Ok(()), 0), refusal);
    assert_eq!(m.add_session(3, params("c"), Err("down".into()), 0), Err("down".to_string()));
    assert_eq!(m.sessions.len(), 2);
}

#[test]
fn a_host_is_removed_by_name() {
    let mut m = two_hosts();
    assert_eq!(m.remove_session("u@a:22"), Ok(()));
    assert_eq!(m.remove_session("u@a:22"), Err("主机 [u@a:22] 未找到".to_string()));
    assert_eq!(m.sessions.len(), 1);
    assert_eq!(m.sessions[0].serial, 2);
    m.shutdown_all();
    assert!(m.sessions.is_empty());
}

#[test]
fn local_ports_belong_to_one_host() {
    let mut m = two_hosts();
    assert_eq!(m.add_tunnel("u@a:22", 10, 8080, "r", 80, &Ok(())), Ok(()));
    let taken = Err("本地端口 8080 已被主机 [u@a:22] 的隧道占用".to_string());
    assert_eq!(m.add_tunnel("u@b:22", 11, 8080, "r", 80, &Ok(())), taken);
    assert_eq!(m.add_tunnel("u@x:22", 11, 8080, "r", 80, &Ok(())), taken);
    assert_eq!(
        m.add_tunnel("u@x:22", 11, 8081, "r", 80, &Ok(())),
        Err("主机 [u@x:22] 未连接".to_string())
    );
    assert_eq!(
        m.add_tunnel("u@b:22", 11, 8081, "r", 80, &Err("busy".into())),
        Err("本地端口 8081 绑定失败：busy".to_string())
    );
    assert_eq!(m.remove_tunnel("u@a:22", 8080), Ok(()));
    assert_eq!(m.remove_tunnel("u@a:22", 8080), Err("隧道 8080 不存在".to_string()));
    assert_eq!(m.add_tunnel("u@b:22", 11, 8080, "r", 80, &Ok(())), Ok(()));
}

#[test]
fn tunnels_of_a_host_stop_and_start() {
    let mut m = two_hosts();
    m.add_tunnel("u@b:22", 10, 8080, "r", 80, &Ok(())).unwrap();
    assert_eq!(m.disable_tunnel("u@b:22", 8080), Ok(()));
    assert_eq!(m.disable_tunnel("u@b:22", 8080), Err("隧道 8080 已经是停用状态".to_string()));
    assert_eq!(m.may_enable_tunnel("u@b:22", 8080), Ok(()));
    assert_eq!(m.enable_tunnel("u@b:22", 8080, &Ok(())), Ok(()));
    let gone = Err("主机 [x] 未连接".to_string());
    assert_eq!(m.disable_tunnel("x", 8080), gone);
    assert_eq!(m.enable_tunnel("x", 8080, &Ok(())), gone);
    assert_eq!(m.remove_tunnel("x", 8080), gone);
    assert_eq!(m.may_enable_tunnel("x", 8080), gone);
    assert_eq!(m.reconnect_session("x"), gone);
}

#[test]
fn a_host_is_connected_anew() {
    let mut m = two_hosts();
    assert_eq!(m.reconnect_session("u@b:22"), Ok(()));
    assert_eq!(m.sessions[1].status(), ConnectionStatus::Reconnecting(0));
    m.on_progress(2, Progress::Attempting(3));
    assert_eq!(m.reconnect_session("u@b:22"), Ok(()));
    assert_eq!(m.sessions[1].status(), ConnectionStatus::Reconnecting(3));
    m.on_progress(9, Progress::GaveUp);
    m.on_progress(2, Progress::Connected);
    assert_eq!(m.sessions[1].status(), ConnectionStatus::Connected);
}

#[test]
fn traffic_finds_its_tunnel() {
    let mut m = two_hosts();
    m.add_tunnel("u@b:22", 10, 8080, "r", 80, &Ok(())).unwrap();
    m.on_traffic(2, 8080, 10, Traffic::Sent(5));
    m.on_traffic(1, 8080, 10, Traffic::Sent(50));
    m.on_traffic(3, 8080, 10, Traffic::Sent(500));
    m.on_traffic(2, 8080, 11, Traffic::Sent(5000));
    assert_eq!(m.sessions[1].tunnels.get(&8080).unwrap().tx_bytes, 5);
}

#[test]
fn what_is_kept_comes_back() {
    let mut m = two_hosts();
    m.add_tunnel("u@b:22", 10, 9000, "r", 9, &Ok(())).unwrap();
    m.add_tunnel("u@b:22", 11, 80, "r", 9, &Ok(())).unwrap();
    m.disable_tunnel("u@b:22", 9000).unwrap();
    let kept = m.to_config();
    assert_eq!(
        kept,
        AppConfig {
            hosts: vec![
                SavedHost { params: params("a"), tunnels: vec![] },
                SavedHost { params: params("b"), tunnels: vec![tunnel(80, true), tunnel(9000, false)] },
            ]
        }
    );
    let mut back = MultiTunnelManager::new(FilePath::of_text("/c.json"));
    for (i, host) in kept.hosts.iter().enumerate() {
        let binds: Vec<Bind> = host.tunnels.iter().map(|_| Bind { serial: 0, bound: Ok(()) }).collect();
        back.restore_session(i as u64, host, Err("down".into()), &binds, 0);
    }
    assert_eq!(back.to_config(), kept);
    assert_eq!(back.sessions[0].status(), ConnectionStatus::Disconnected);
}

#[test]
fn kept_tunnels_come_back_in_any_order() {
    let mut m = MultiTunnelManager::new(FilePath::of_text("/c.json"));
    let host = SavedHost {
        params: params("a"),
        tunnels: vec![tunnel(8080, true), tunnel(3306, false), tunnel(22, true)],
    };
    let binds = vec![
        Bind { serial: 1, bound: Ok(()) },
        Bind { serial: 2, bound: Ok(()) },
        Bind { serial: 3, bound: Err("busy".into()) },
    ];
    assert_eq!(m.restore_need(&host), Some(vec![true, false, true]));
    m.restore_session(9, &host, Ok(()), &binds, 0);
    assert_eq!(m.restore_need(&host), None);
    assert_eq!(
        m.to_config().hosts[0].tunnels,
        vec![tunnel(22, false), tunnel(3306, false), tunnel(8080, true)]
    );
}

#[test]
fn a_tunnel_that_cannot_listen_comes_back_stopped() {
    let mut m = MultiTunnelManager::new(FilePath::of_text("/c.json"));
    let host = SavedHost { params: params("a"), tunnels: vec![tunnel(80, true), tunnel(81, false)] };
    let binds = vec![
        Bind { serial: 1, bound: Err("busy".into()) },
        Bind { serial: 2, bound: Ok(()) },
    ];
    m.restore_session(1, &host, Ok(()), &binds, 0);
    assert_eq!(m.sessions[0].status(), ConnectionStatus::Connected);
    assert_eq!(m.to_config().hosts[0].tunnels, vec![tunnel(80, false), tunnel(81, false)]);
    assert_eq!(
        m.sessions[0].tunnels.get(&80).unwrap().log.messages(),
        vec![
            "隧道已加载（停用状态）：80 -> r:9",
            "启动监听失败：本地端口 80 绑定失败：busy，已设为停用状态",
        ]
    );
    let again = SavedHost { params: params("a"), tunnels: vec![] };
    m.restore_session(2, &again, Ok(()), &vec![], 0);
    assert_eq!(m.sessions.len(), 1);
}

#[test]
fn requests_need_what_they_can_use() {
    let mut m = two_hosts();
    m.add_tunnel("u@a:22", 10, 80, "r", 9, &Ok(())).unwrap();
    m.disable_tunnel("u@a:22", 80).unwrap();
    let add = |id: &str, port: u16| Command::AddTunnel {
        session_id: id.into(),
        local_port: port,
        remote_host: "r".into(),
        remote_port: 1,
    };
    assert_eq!(m.need(&Command::ConnectHost { params: params("c") }), Need::Connection);
    assert_eq!(m.need(&Command::ConnectHost { params: params("a") }), Need::Nothing);
    assert_eq!(m.need(&add("u@a:22", 81)), Need::Port(81));
    assert_eq!(m.need(&add("u@b:22", 80)), Need::Nothing);
    assert_eq!(m.need(&add("x", 82)), Need::Nothing);
    let enable = Command::EnableTunnel { session_id: "u@a:22".into(), local_port: 80 };
    assert_eq!(m.need(&enable), Need::Port(80));
    let scan = |id: &str| Command::ScanPorts { session_id: id.into() };
    assert_eq!(m.need(&scan("u@b:22")), Need::Listing(2));
    assert_eq!(m.need(&scan("x")), Need::Nothing);
    assert_eq!(m.need(&Command::Quit), Need::Nothing);
}

#[test]
fn requests_are_carried_out() {
    let mut m = MultiTunnelManager::new(FilePath::of_text("/c.json"));
    let done = m.execute(Command::ConnectHost { params: params("a") }, 1, Ok(()), 0);
    assert_eq!((done.result, done.save), (Ok(()), true));
    let id = "u@a:22".to_string();
    let add = Command::AddTunnel {
        session_id: id.clone(),
        local_port: 80,
        remote_host: "r".into(),
        remote_port: 1,
    };
    let done = m.execute(add, 2, Ok(()), 0);
    assert_eq!((done.result, done.save), (Ok(()), true));
    assert_eq!(m.sessions[0].tunnels.get(&80).unwrap().serial, 2);
    let done = m.execute(Command::DisableTunnel { session_id: id.clone(), local_port: 80 }, 0, Ok(()), 0);
    assert_eq!((done.result, done.save), (Ok(()), true));
    let done = m.execute(Command::DisableTunnel { session_id: id.clone(), local_port: 80 }, 0, Ok(()), 0);
    assert!(done.result.is_err() && !done.save);
    let done = m.execute(Command::EnableTunnel { session_id: id.clone(), local_port: 80 }, 0, Ok(()), 0);
    assert_eq!((done.result, done.save), (Ok(()), true));
    let done = m.execute(Command::ReconnectHost { session_id: id.clone() }, 0, Ok(()), 0);
    assert_eq!((done.result, done.save), (Ok(()), false));
    let done = m.execute(Command::ScanPorts { session_id: id.clone() }, 0, Ok(()), 0);
    assert_eq!((done.result, done.save), (Ok(()), false));
    let done = m.execute(Command::RemoveTunnel { session_id: id.clone(), local_port: 80 }, 0, Ok(()), 0);
    assert_eq!((done.result, done.save), (Ok(()), true));
    let done = m.execute(Command::DisconnectHost { session_id: id }, 0, Ok(()), 0);
    assert_eq!((done.result, done.save), (Ok(()), true));
    let done = m.execute(Command::Quit, 0, Ok(()), 0);
    assert_eq!((done.result, done.save), (Ok(()), false));
    assert!(m.sessions.is_empty());
}

#[test]
fn granted_requests_say_what_to_do() {
    let mut m = two_hosts();
    let id = "u@b:22".to_string();
    let add = |port: u16| Command::AddTunnel {
        session_id: "u@b:22".into(),
        local_port: port,
        remote_host: "r".into(),
        remote_port: 1,
    };
    let connect = || Command::ConnectHost { params: params("c") };
    assert_eq!(m.execute(connect(), 7, Err("down".into()), 0).action, Action::Nothing);
    assert_eq!(m.execute(connect(), 7, Ok(()), 0).action, Action::KeepConnection(7));
    assert_eq!(m.execute(add(80), 8, Err("in use".into()), 0).action, Action::Nothing);
    assert_eq!(m.execute(add(80), 8, Ok(()), 0).action, Action::Listen(2, 80));
    let disable = || Command::DisableTunnel { session_id: "u@b:22".into(), local_port: 80 };
    assert_eq!(m.execute(disable(), 0, Ok(()), 0).action, Action::StopListening(2, 80));
    assert_eq!(m.execute(disable(), 0, Ok(()), 0).action, Action::Nothing);
    let enable = || Command::EnableTunnel { session_id: "u@b:22".into(), local_port: 80 };
    assert_eq!(m.execute(enable(), 0, Ok(()), 0).action, Action::Listen(2, 80));
    let remove = |port: u16| Command::RemoveTunnel { session_id: "u@b:22".into(), local_port: port };
    assert_eq!(m.execute(remove(80), 0, Ok(()), 0).action, Action::StopListening(2, 80));
    m.execute(add(81), 9, Ok(()), 0);
    m.execute(Command::DisableTunnel { session_id: id.clone(), local_port: 81 }, 0, Ok(()), 0);
    assert_eq!(m.execute(remove(81), 0, Ok(()), 0).action, Action::Nothing);
    let reconnect = || Command::ReconnectHost { session_id: "u@b:22".into() };
    assert_eq!(m.execute(reconnect(), 0, Ok(()), 0).action, Action::Reconnect(2));
    assert_eq!(m.execute(reconnect(), 0, Ok(()), 0).action, Action::Nothing);
    let disconnect = || Command::DisconnectHost { session_id: "u@b:22".into() };
    assert_eq!(m.execute(disconnect(), 0, Ok(()), 0).action, Action::EndSession(2));
    assert_eq!(m.execute(disconnect(), 0, Ok(()), 0).action, Action::Nothing);
}

fn trial(serial: u64, ports: Vec<RemotePort>) -> Trial {
    Trial { serial, outcome: Ok(()), ports, now: 0 }
}

#[test]
fn each_request_is_answered_and_followed_by_a_picture() {
    let mut s = Service::new(two_hosts());
    let found = || vec![RemotePort { port: 22, process: "sshd".into() }];
    let none = |s: &Service| -> Vec<Vec<Rate>> {
        s.manager
            .sessions
            .iter()
            .map(|x| x.growths().iter().map(|_| Rate { rx: 0, tx: 0 }).collect())
            .collect()
    };
    s.on_tick();
    assert_eq!(s.phase, Phase::Showing);
    let rates = none(&s);
    assert_eq!(s.show(1, &rates).len(), 2);
    assert_eq!(s.phase, Phase::Waiting);

    let connect = Command::ConnectHost { params: params("c") };
    assert_eq!(
        s.on_request(Some(connect), trial(3, Vec::new())),
        Served::Answered {
            reply: Reply::Done(Ok(())),
            action: Action::KeepConnection(3),
            save: true,
        }
    );
    assert_eq!(s.phase, Phase::Showing);
    let rates = none(&s);
    assert_eq!(s.show(2, &rates)[2].id, "u@c:22");

    let scan = |id: &str| Some(Command::ScanPorts { session_id: id.into() });
    let answer = s.on_request(scan("u@a:22"), trial(4, found()));
    let told = |ports| Served::Answered {
        reply: Reply::Ports(ports),
        action: Action::Nothing,
        save: false,
    };
    assert_eq!(answer, told(found()));
    let rates = none(&s);
    s.show(3, &rates);
    assert_eq!(s.on_request(scan("x"), trial(5, found())), told(Vec::new()));
    let rates = none(&s);
    s.show(4, &rates);

    let disconnect = Command::DisconnectHost { session_id: "x".into() };
    assert_eq!(
        s.on_request(Some(disconnect), trial(6, Vec::new())),
        Served::Answered {
            reply: Reply::Done(Err("主机 [x] 未找到".to_string())),
            action: Action::Nothing,
            save: false,
        }
    );
    let rates = none(&s);
    s.show(5, &rates);

    let keep = s.manager.to_config();
    let ended = s.on_request(Some(Command::Quit), trial(7, Vec::new()));
    assert_eq!(ended, Served::Ended { keep, close: vec![1, 2, 3] });
    assert_eq!(s.phase, Phase::Ended);
    assert!(s.manager.sessions.is_empty());

    let mut s = Service::new(two_hosts());
    let keep = s.manager.to_config();
    assert_eq!(s.on_request(None, trial(1, Vec::new())), Served::Ended { keep, close: vec![1, 2] });
}

#[test]
fn all_hosts_are_shown() {
    let mut m = two_hosts();
    m.add_tunnel("u@b:22", 10, 80, "r", 9, &Ok(())).unwrap();
    let rates = vec![vec![], vec![Rate { rx: 3, tx: 4 }]];
    assert!(m.rates_usable(&rates));
    assert!(!m.rates_usable(&vec![vec![]]));
    assert!(!m.rates_usable(&vec![vec![], vec![]]));
    let shown = m.summarize_all(5, &rates);
    assert_eq!(shown.len(), 2);
    assert_eq!((shown[0].id.as_str(), shown[0].total_rx_rate), ("u@a:22", 0));
    assert_eq!((shown[1].total_rx_rate, shown[1].total_tx_rate), (3, 4));
    assert_eq!(shown[1].tunnels[0].local_port, 80);
    assert_eq!(m.sessions[0].last_sample, 5);
}

#[test]
fn reading_what_was_kept() {
    assert!(default_true());
    let (config, warning) = load_config("/c", LoadOutcome::Missing);
    assert_eq!((config, warning), (AppConfig::default(), None));
    let (config, warning) = load_config("/c", LoadOutcome::Unreadable("e".into()));
    assert_eq!((config.hosts.len(), warning.unwrap().as_str()), (0, "[警告] 读取配置文件 /c 失败：e"));
    let (config, warning) = load_config("/c", LoadOutcome::Malformed("e".into()));
    assert_eq!((config.hosts.len(), warning.unwrap().as_str()), (0, "[警告] 解析配置文件 /c 失败：e"));
    let kept = AppConfig { hosts: vec![SavedHost { params: params("a"), tunnels: vec![] }] };
    let (config, warning) = load_config("/c", LoadOutcome::Parsed(kept));
    assert_eq!((config.hosts.len(), warning), (1, None));
}

#[test]
fn writing_what_is_kept() {
    assert_eq!(save_config(SaveOutcome::Saved), Ok(()));
    assert_eq!(
        save_config(SaveOutcome::NotSerialized("e".into())),
        Err("序列化配置失败：e".to_string())
    );
    assert_eq!(save_config(SaveOutcome::NotWritten("e".into())), Err("写入配置文件失败：e".to_string()));
    assert_eq!(save_config(SaveOutcome::NotRenamed("e".into())), Err("重命名配置文件失败：e".to_string()));
    assert_eq!(save_warning("/c", "e"), "[警告] 保存配置至 /c 失败：e");
}

#[test]
fn servers_are_trusted() {
    assert!(trust_server_key(false, None));
    assert!(trust_server_key(true, Some(true)));
    assert!(trust_server_key(true, Some(false)));
    assert!(!trust_server_key(true, None));
}

#[test]
fn logging_in_with_a_key() {
    let p = params("a");
    let step = next_step(&p, "/k", LoginStep::Connect, Ok(false));
    assert_eq!(step, LoginStep::LoadKey(FilePath::of_text("/k")));
    let step = next_step(&p, "/k", step, Ok(false));
    assert_eq!(step, LoginStep::AskHash);
    let step = next_step(&p, "/k", step, Ok(false));
    assert_eq!(step, LoginStep::OfferKey);
    assert_eq!(next_step(&p, "/k", LoginStep::OfferKey, Ok(true)), LoginStep::Done);
    let fail = |step: LoginStep| match next_step(&p, "/k", step, Err("e".into())) {
        LoginStep::Fail(message) => message,
        _ => String::new(),
    };
    assert_eq!(fail(LoginStep::Connect), "连接 a:22 失败：e");
    assert_eq!(fail(LoginStep::LoadKey(FilePath::of_text("/k"))), "加载私钥 /k 失败：e");
    assert_eq!(fail(LoginStep::AskHash), "获取服务器 RSA 算法失败：e");
    assert_eq!(fail(LoginStep::OfferKey), "SSH 公钥认证请求失败：e");
    assert_eq!(
        next_step(&p, "/k", step, Ok(false)),
        LoginStep::Fail("SSH 公钥认证失败（u@a）".into())
    );
}

#[test]
fn logging_in_with_a_password() {
    let mut p = params("a");
    p.auth = AuthMethod::Password("secret".into());
    let step = next_step(&p, "/k", LoginStep::Connect, Ok(false));
    assert_eq!(step, LoginStep::OfferPassword("secret".into()));
    assert_eq!(
        next_step(&p, "/k", LoginStep::OfferPassword("secret".into()), Err("e".into())),
        LoginStep::Fail("SSH 密码认证请求失败：e".into())
    );
    assert_eq!(
        next_step(&p, "/k", LoginStep::OfferPassword("secret".into()), Ok(false)),
        LoginStep::Fail("SSH 密码认证失败（u@a）".into())
    );
    assert_eq!(next_step(&p, "/k", step, Ok(true)), LoginStep::Done);
    assert_eq!(next_step(&p, "/k", LoginStep::Done, Err("e".into())), LoginStep::Done);
}
