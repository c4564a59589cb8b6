//! Tunnels of one host: requests, traffic, snapshots, and the state of the connection.

use mtui::relay::ending;
use mtui::relay::Relay;
use mtui::relay::RelayStep;
use mtui::session::CheckStep;
use mtui::session::ConnectionStatus;
use mtui::session::Growth;
use mtui::session::Progress;
use mtui::session::Reconnect;
use mtui::session::ReconnectStep;
use mtui::session::TunnelManager;
use mtui::summary::summarize;
use mtui::summary::total_rates;
use mtui::target::AuthMethod;
use mtui::target::ConnectParams;
use mtui::tunnel::Rate;
use mtui::tunnel::Traffic;
use mtui::tunnel::TunnelInfo;
use mtui::tunnel_log::log_push;
use mtui::tunnel_log::TunnelLog;
use mtui::tunnel_log::LOG_CAPACITY;

const SECOND: i64 = 1_000_000_000;

fn params(host: &str) -> ConnectParams {
    ConnectParams {
        alias: None,
        user: "u".into(),
        host: host.into(),
        ssh_port: 22,
        auth: AuthMethod::Password("p".into()),
        check_host_key: true,
    }
}

fn session() -> TunnelManager {
    TunnelManager::connect(7, params("h"), Ok(()), 0).ok().unwrap()
}

fn log_of(s: &TunnelManager, port: u16) -> Vec<String> {
    s.tunnels.get(&port).unwrap().log.messages()
}

fn no_rates(s: &TunnelManager) -> Vec<Rate> {
    s.growths().iter().map(|_| Rate { rx: 0, tx: 0 }).collect()
}

#[test]
fn test_tunnel_info_enabled_state() {
    let mut info = TunnelInfo {
        local_port: 8080,
        remote_host: "127.0.0.1".into(),
        remote_port: 80,
        enabled: true,
        connections: 2,
        rx_bytes: 1024,
        tx_bytes: 2048,
        rx_rate: 100,
        tx_rate: 200,
        log: vec!["created".into()],
    };
    assert!(info.enabled);
    info.enabled = false;
    assert!(!info.enabled);
}

#[test]
fn a_log_keeps_the_latest_messages() {
    let mut log = TunnelLog::new();
    for i in 0..LOG_CAPACITY + 5 {
        log_push(&mut log, format!("m{}", i));
    }
    let messages = log.messages();
    assert_eq!(messages.len(), 200);
    assert_eq!(messages[0], "m5");
    assert_eq!(messages[199], "m204");
}

#[test]
fn tunnels_come_and_go() {
    let mut s = session();
    assert_eq!(s.add(1, 8080, "web", 80, &Ok(())), Ok(()));
    assert_eq!(log_of(&s, 8080), vec!["隧道已创建：8080 -> web:80"]);
    assert_eq!(
        s.add(2, 8081, "web", 80, &Err("in use".into())),
        Err("本地端口 8081 绑定失败：in use".to_string())
    );
    assert!(s.tunnels.get(&8081).is_none());
    s.restore_disabled(3, 9000, "db", 5432);
    assert_eq!(log_of(&s, 9000), vec!["隧道已加载（停用状态）：9000 -> db:5432"]);
    assert_eq!(s.remove(8080), Ok(true));
    assert_eq!(s.remove(9000), Ok(false));
    assert_eq!(s.remove(9000), Err("隧道 9000 不存在".to_string()));
}

#[test]
fn tunnels_stop_and_start() {
    let mut s = session();
    s.add(1, 8080, "web", 80, &Ok(())).unwrap();
    s.on_traffic(8080, 1, Traffic::Accepted("peer".into()));
    assert_eq!(s.enable(8080, &Ok(())), Err("隧道 8080 已经在运行中".to_string()));
    assert_eq!(s.may_enable(8080), Err("隧道 8080 已经在运行中".to_string()));
    assert_eq!(s.disable(8080), Ok(()));
    let rates = no_rates(&s);
    assert_eq!(s.snapshots(&rates)[0].connections, 0);
    assert_eq!(s.disable(8080), Err("隧道 8080 已经是停用状态".to_string()));
    assert_eq!(
        s.enable(8080, &Err("busy".into())),
        Err("本地端口 8080 绑定失败：busy".to_string())
    );
    assert_eq!(s.may_enable(8080), Ok(()));
    assert_eq!(s.enable(8080, &Ok(())), Ok(()));
    assert_eq!(
        log_of(&s, 8080),
        vec![
            "隧道已创建：8080 -> web:80",
            "peer 接入",
            "隧道已停用：8080 -> web:80",
            "隧道已启用：8080 -> web:80",
        ]
    );
    assert_eq!(s.disable(1), Err("隧道 1 不存在".to_string()));
    assert_eq!(s.enable(1, &Ok(())), Err("隧道 1 不存在".to_string()));
}

#[test]
fn traffic_is_counted_and_logged() {
    let mut s = session();
    s.add(5, 80, "h", 1, &Ok(())).unwrap();
    s.on_traffic(80, 5, Traffic::AcceptFailed("e".into()));
    s.on_traffic(80, 5, Traffic::Accepted("a".into()));
    s.on_traffic(80, 5, Traffic::Accepted("b".into()));
    s.on_traffic(80, 5, Traffic::Sent(10));
    s.on_traffic(80, 5, Traffic::Received(20));
    s.on_traffic(80, 5, Traffic::Received(3));
    s.on_traffic(80, 5, ending("a".into(), Ok(())));
    s.on_traffic(80, 4, Traffic::Sent(1000));
    s.on_traffic(81, 5, Traffic::Sent(1000));
    let entry = s.tunnels.get(&80).unwrap();
    assert_eq!((entry.connections, entry.rx_bytes, entry.tx_bytes), (1, 23, 10));
    s.on_traffic(80, 5, ending("b".into(), Err("reset".into())));
    assert_eq!(
        log_of(&s, 80)[1..],
        ["accept 失败：e", "a 接入", "b 接入", "a 连接结束", "b 转发失败：reset"]
    );
    assert_eq!(s.tunnels.get(&80).unwrap().connections, 0);
}

#[test]
fn open_connections_are_counted_across_a_stop() {
    let mut s = session();
    s.add(5, 80, "h", 1, &Ok(())).unwrap();
    let shown = |s: &TunnelManager| s.snapshots(&no_rates(s))[0].connections;
    s.on_traffic(80, 5, Traffic::Accepted("a".into()));
    s.on_traffic(80, 5, Traffic::Accepted("b".into()));
    assert_eq!(shown(&s), 2);
    s.disable(80).unwrap();
    assert_eq!(shown(&s), 0);
    s.on_traffic(80, 5, ending("a".into(), Ok(())));
    s.enable(80, &Ok(())).unwrap();
    assert_eq!(shown(&s), 1);
    s.on_traffic(80, 5, Traffic::Accepted("c".into()));
    assert_eq!(shown(&s), 2);
    s.on_traffic(80, 5, ending("b".into(), Err("reset".into())));
    s.on_traffic(80, 5, ending("c".into(), Ok(())));
    assert_eq!(shown(&s), 0);
    s.on_traffic(80, 5, ending("nobody".into(), Ok(())));
    assert_eq!(shown(&s), 0);
}

#[test]
fn snapshots_tell_what_was_new() {
    let mut s = session();
    s.add(1, 9000, "b", 2, &Ok(())).unwrap();
    s.add(2, 80, "a", 1, &Ok(())).unwrap();
    s.on_traffic(80, 2, Traffic::Received(100));
    s.on_traffic(9000, 1, Traffic::Sent(7));
    assert_eq!(s.sample_age(5), 5);
    assert_eq!(s.sample_age(-5), 0);
    assert_eq!(s.growths(), vec![Growth { rx: 100, tx: 0 }, Growth { rx: 0, tx: 7 }]);
    s.disable(9000).unwrap();
    let infos = s.list(SECOND, &vec![Rate { rx: 100, tx: 0 }, Rate { rx: 0, tx: 7 }]);
    assert_eq!(infos.len(), 2);
    assert_eq!((infos[0].local_port, infos[0].enabled, infos[0].rx_rate), (80, true, 100));
    assert_eq!((infos[1].local_port, infos[1].enabled, infos[1].tx_rate), (9000, false, 0));
    assert_eq!((infos[1].tx_bytes, infos[1].remote_host.as_str()), (7, "b"));
    assert_eq!(s.growths(), vec![Growth { rx: 0, tx: 0 }, Growth { rx: 0, tx: 0 }]);
    assert_eq!(s.sample_age(SECOND + 3), 3);
    s.on_traffic(80, 2, Traffic::Received(1));
    assert_eq!(s.growths()[0], Growth { rx: 1, tx: 0 });
    s.remove(80).unwrap();
    s.add(3, 80, "a", 1, &Ok(())).unwrap();
    assert_eq!(s.growths()[0], Growth { rx: 0, tx: 0 });
    let rates = no_rates(&s);
    assert_eq!(s.snapshots(&rates)[0].log, vec!["隧道已创建：80 -> a:1"]);
}

#[test]
fn totals_are_sums() {
    let mut s = session();
    s.add(1, 1, "a", 1, &Ok(())).unwrap();
    s.add(2, 2, "a", 1, &Ok(())).unwrap();
    let infos = s.list(0, &vec![Rate { rx: 5, tx: 6 }, Rate { rx: 7, tx: 8 }]);
    assert_eq!(total_rates(&infos), Some(Rate { rx: 12, tx: 14 }));
    let h = summarize(&s.params, s.status(), infos);
    assert_eq!((h.id.as_str(), h.display_name.as_str()), ("u@h:22", "u@h:22"));
    assert_eq!((h.total_rx_rate, h.total_tx_rate), (12, 14));
    let infos = s.list(0, &vec![Rate { rx: u64::MAX, tx: 0 }, Rate { rx: 1, tx: 0 }]);
    assert_eq!(total_rates(&infos), None);
}

#[test]
fn a_connection_is_probed_and_replaced() {
    let mut s = session();
    assert_eq!(s.check(29 * SECOND, false), CheckStep::Keep);
    assert_eq!(s.check(30 * SECOND, false), CheckStep::Ping);
    assert_eq!(s.on_ping(true), CheckStep::Keep);
    assert_eq!(s.check(59 * SECOND, false), CheckStep::Keep);
    assert_eq!(s.status(), ConnectionStatus::Connected);
    assert_eq!(s.check(60 * SECOND, false), CheckStep::Ping);
    assert_eq!(s.on_ping(false), CheckStep::Reconnect);
    assert_eq!(s.status(), ConnectionStatus::Reconnecting(0));
    assert_eq!(s.check(600 * SECOND, true), CheckStep::Keep);
    s.on_progress(Progress::Attempting(2));
    assert_eq!(s.status(), ConnectionStatus::Reconnecting(2));
    s.on_progress(Progress::Connected);
    assert_eq!(s.status(), ConnectionStatus::Connected);
    assert_eq!(s.check(61 * SECOND, true), CheckStep::Reconnect);
    s.on_progress(Progress::GaveUp);
    assert_eq!(s.status(), ConnectionStatus::Disconnected);
}

#[test]
fn a_session_without_connection_begins_at_once() {
    let mut s = TunnelManager::new_disconnected(1, params("h"), 5);
    assert_eq!(s.status(), ConnectionStatus::Disconnected);
    assert_eq!(s.check(5, false), CheckStep::Reconnect);
    s.on_progress(Progress::GaveUp);
    assert_eq!(s.check(6, false), CheckStep::Keep);
    assert_eq!(s.check(5 + 30 * SECOND, false), CheckStep::Reconnect);
    let early = TunnelManager::new_disconnected(1, params("h"), i64::MIN);
    assert_eq!(early.last_keepalive, i64::MIN);
}

#[test]
fn a_failed_connection_makes_no_session() {
    let r = TunnelManager::connect(1, params("h"), Err("no route".into()), 0);
    assert_eq!(r.err(), Some("no route".to_string()));
}

/// Tells a session of a whole run, whose attempts come out as given; the waits.
fn reconnect(s: &mut TunnelManager, results: &[bool]) -> Vec<u64> {
    let mut waits = Vec::new();
    let mut results = results.iter();
    let mut r = Reconnect::new();
    let mut step = r.next_attempt();
    loop {
        if let Some(progress) = step.told() {
            s.on_progress(progress);
        }
        step = match step {
            ReconnectStep::Attempt(n) => {
                assert_eq!(s.status(), ConnectionStatus::Reconnecting(n));
                r.on_result(*results.next().unwrap())
            }
            ReconnectStep::Wait(secs) => {
                waits.push(secs);
                r.next_attempt()
            }
            ReconnectStep::Connected | ReconnectStep::GaveUp => return waits,
        };
    }
}

#[test]
fn a_run_of_attempts_ends_with_the_first_success() {
    let mut s = TunnelManager::new_disconnected(1, params("h"), 0);
    assert_eq!(reconnect(&mut s, &[false, false, true]), vec![2, 4]);
    assert_eq!(s.status(), ConnectionStatus::Connected);
    assert!(s.connected);
    assert_eq!(reconnect(&mut s, &[true]), Vec::<u64>::new());
    assert_eq!(reconnect(&mut s, &[false, false, false, false, true]), vec![2, 4, 8, 16]);
    assert_eq!(s.status(), ConnectionStatus::Connected);
}

#[test]
fn attempts_are_few_and_wait_longer_each_time() {
    let mut s = TunnelManager::new_disconnected(1, params("h"), 0);
    let waits = reconnect(&mut s, &[false; 5]);
    assert_eq!(waits, vec![2, 4, 8, 16, 16]);
    assert_eq!(waits.iter().sum::<u64>(), 46);
    assert_eq!(s.status(), ConnectionStatus::Disconnected);
    assert!(!s.connected);
    let mut r = Reconnect::new();
    assert_eq!(r.wait_secs(), 1);
    assert_eq!(r.next_attempt(), ReconnectStep::Attempt(1));
    assert_eq!(r.on_result(true), ReconnectStep::Connected);
    assert_eq!(r.on_result(false), ReconnectStep::Wait(2));
}

#[test]
fn a_session_ends_with_its_tunnels() {
    let mut s = session();
    s.add(1, 1, "a", 1, &Ok(())).unwrap();
    assert!(s.shutdown());
    assert!(s.tunnels.is_empty());
    assert_eq!(s.status(), ConnectionStatus::Disconnected);
    assert!(!s.shutdown());
}

#[test]
fn a_relay_forwards_until_the_remote_end_closes() {
    assert_eq!(Relay::open(false).err(), Some("SSH 会话未连接或已断开".to_string()));
    let mut relay = Relay::open(true).ok().unwrap();
    let step = relay.on_local(Ok(5));
    assert_eq!(step, RelayStep::WriteRemote(5));
    assert_eq!(step.counted(), Some(Traffic::Sent(5)));
    let step = relay.on_remote(Ok(9));
    assert_eq!(step, RelayStep::WriteLocal(9));
    assert_eq!(step.counted(), Some(Traffic::Received(9)));
    assert!(!relay.stream_eof);
    let step = relay.on_local(Ok(0));
    assert_eq!(step, RelayStep::ShutdownRemote);
    assert_eq!(step.counted(), None);
    assert!(relay.stream_eof);
    assert_eq!(relay.on_remote(Ok(1)), RelayStep::WriteLocal(1));
    assert_eq!(relay.on_remote(Ok(0)), RelayStep::Finish);
    assert_eq!(relay.on_remote(Err("e".into())), RelayStep::Fail("e".into()));
    let mut other = Relay::open(true).ok().unwrap();
    assert_eq!(other.on_local(Err("e".into())), RelayStep::Fail("e".into()));
}
