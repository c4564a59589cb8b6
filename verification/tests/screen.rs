//! Keys, news, and what stands on the screen.

use mtui::app::App;
use mtui::app::Ask;
use mtui::app::KeyPress;
use mtui::app::Mode;
use mtui::commands::Command;
use mtui::forms::AuthType;
use mtui::forms::ConnectFocus;
use mtui::forms::FormTunnel;
use mtui::forms::FormTunnelFocus;
use mtui::forms::Key;
use mtui::news::PortSearch;
use mtui::paths::Environment;
use mtui::paths::FilePath;
use mtui::popups::Popup;
use mtui::ports::RemotePort;
use mtui::screen::Body;
use mtui::session::ConnectionStatus;
use mtui::styles::bold;
use mtui::styles::centered_rect;
use mtui::styles::fg;
use mtui::styles::marked;
use mtui::styles::Area;
use mtui::styles::Color;
use mtui::styles::Span;
use mtui::summary::HostSummary;
use mtui::target::AuthMethod;
use mtui::target::ConnectParams;
use mtui::target::SshConfigHost;
use mtui::tunnel::TunnelInfo;

const SECOND: i64 = 1_000_000_000;

fn env() -> Environment {
    Environment {
        home: Some("/home/me".into()),
        user: Some("me".into()),
        logname: None,
        config_dir: None,
        xdg_config_home: None,
        backslash: false,
    }
}

fn info(local_port: u16, remote_port: u32, enabled: bool) -> TunnelInfo {
    TunnelInfo {
        local_port,
        remote_host: "r".into(),
        remote_port,
        enabled,
        connections: 3,
        rx_bytes: 2048,
        tx_bytes: 10,
        rx_rate: 1024,
        tx_rate: 5,
        log: vec!["one".into(), "two".into(), "three".into()],
    }
}

fn host(id: &str, tunnels: Vec<TunnelInfo>) -> HostSummary {
    HostSummary {
        id: id.into(),
        display_name: id.into(),
        params: ConnectParams {
            alias: Some(id.into()),
            user: "u".into(),
            host: "h".into(),
            ssh_port: 22,
            auth: AuthMethod::KeyFile(FilePath::of_text("/k")),
            check_host_key: true,
        },
        status: ConnectionStatus::Connected,
        tunnels,
        total_rx_rate: 1024,
        total_tx_rate: 5,
    }
}

fn known(alias: &str) -> SshConfigHost {
    SshConfigHost {
        alias: alias.into(),
        host_name: "address".into(),
        user: String::new(),
        port: 2200,
        identity_file: None,
    }
}

fn app() -> App {
    let mut app = App::new(vec![]);
    app.on_state(vec![
        host("a", vec![info(80, 8080, true), info(81, 8081, false), info(82, 8082, true)]),
        host("b", vec![]),
    ]);
    app
}

fn press(app: &mut App, key: Key) -> Ask {
    app.on_key(KeyPress { key, control: false, pressed: true }, &env(), 1)
}

fn type_text(app: &mut App, text: &str) {
    for c in text.chars() {
        assert_eq!(press(app, Key::Char(c)), Ask::Nothing);
    }
}

fn message(app: &App) -> &str {
    match &app.status {
        Some((text, _)) => text,
        None => "",
    }
}

fn texts(line: &[Span]) -> Vec<&str> {
    line.iter().map(|s| s.text.as_str()).collect()
}

// ---------- The list ----------

#[test]
fn leaving_the_program() {
    for key in [Key::Char('q'), Key::Esc] {
        let mut a = app();
        press(&mut a, key);
        assert!(a.quit);
    }
    let mut a = app();
    press(&mut a, Key::Char('c'));
    assert!(!a.quit);
    a.on_key(KeyPress { key: Key::Char('c'), control: true, pressed: false }, &env(), 0);
    assert!(!a.quit);
    a.on_key(KeyPress { key: Key::Char('c'), control: true, pressed: true }, &env(), 0);
    assert!(a.quit);
}

#[test]
fn changing_the_host() {
    let mut a = app();
    press(&mut a, Key::Down);
    assert_eq!(a.selected_tunnel, 1);
    for key in [Key::Char('L'), Key::Right, Key::Char(']')] {
        a.active_host = 0;
        press(&mut a, key);
        assert_eq!((a.active_host, a.selected_tunnel), (1, 0));
        press(&mut a, key);
        assert_eq!(a.active_host, 1);
    }
    for key in [Key::Char('H'), Key::Left, Key::Char('[')] {
        a.active_host = 1;
        press(&mut a, key);
        assert_eq!(a.active_host, 0);
        press(&mut a, key);
        assert_eq!(a.active_host, 0);
    }
    press(&mut a, Key::Char('2'));
    assert_eq!(a.active_host, 1);
    press(&mut a, Key::Char('3'));
    assert_eq!(a.active_host, 1);
    press(&mut a, Key::Char('1'));
    assert_eq!(a.active_host, 0);
    press(&mut a, Key::Char('0'));
    assert_eq!(a.active_host, 0);
}

#[test]
fn selecting_goes_round() {
    let mut a = app();
    press(&mut a, Key::Up);
    assert_eq!(a.selected_tunnel, 2);
    press(&mut a, Key::Char('j'));
    assert_eq!(a.selected_tunnel, 0);
    press(&mut a, Key::Char('j'));
    press(&mut a, Key::Char('k'));
    assert_eq!(a.selected_tunnel, 0);
    a.select_tunnel(-7);
    assert_eq!(a.selected_tunnel, 2);
}

#[test]
fn requests_from_the_list() {
    let mut a = app();
    press(&mut a, Key::Char(' '));
    assert_eq!(message(&a), "正在停用主机 [a] 的隧道 80…");
    assert_eq!(a.pending_reply, Some(1));
    press(&mut a, Key::Down);
    press(&mut a, Key::Char('s'));
    assert_eq!(message(&a), "正在启用主机 [a] 的隧道 81…");
    press(&mut a, Key::Char('d'));
    assert_eq!(message(&a), "正在删除主机 [a] 的隧道 81…");
    press(&mut a, Key::Char('x'));
    assert_eq!(message(&a), "正在断开主机 [a]…");
    press(&mut a, Key::Char('r'));
    assert_eq!(message(&a), "正在重连主机...");
    let id = || "a".to_string();
    assert_eq!(
        a.take_commands(),
        vec![
            Command::DisableTunnel { session_id: id(), local_port: 80 },
            Command::EnableTunnel { session_id: id(), local_port: 81 },
            Command::RemoveTunnel { session_id: id(), local_port: 81 },
            Command::DisconnectHost { session_id: id() },
            Command::ReconnectHost { session_id: id() },
        ]
    );
    assert!(a.pending_cmds.is_empty());
    press(&mut a, Key::Right);
    press(&mut a, Key::Delete);
    press(&mut a, Key::Char('S'));
    assert!(a.pending_cmds.is_empty());
}

#[test]
fn without_hosts_the_form_for_one_opens() {
    for c in ['n', 'N', 'a', 'p'] {
        let mut a = App::new(vec![]);
        assert_eq!(press(&mut a, Key::Char(c)), Ask::KnownHosts);
        assert_eq!(a.mode, Mode::List);
        a.open_connect_form(vec![known("x")]);
        assert_eq!(a.mode, Mode::ConnectHost);
        assert_eq!(a.form_connect.focus, ConnectFocus::ConfigList);
    }
    let mut a = App::new(vec![]);
    for c in ['x', 'r', ' ', 'd', 'j', 'l', 'H', 'L', '1'] {
        assert_eq!(press(&mut a, Key::Char(c)), Ask::Nothing);
    }
    assert!(a.pending_cmds.is_empty() && a.mode == Mode::List && a.status.is_none());
}

// ---------- The form for a host ----------

#[test]
fn moving_in_the_form_for_a_host() {
    let mut a = app();
    a.open_connect_form(vec![known("x"), known("y")]);
    press(&mut a, Key::Tab);
    assert_eq!(a.form_connect.focus, ConnectFocus::Target);
    press(&mut a, Key::BackTab);
    assert_eq!(a.form_connect.focus, ConnectFocus::ConfigList);
    press(&mut a, Key::Down);
    press(&mut a, Key::Down);
    assert_eq!(a.form_connect.config_selected, 1);
    press(&mut a, Key::Char('k'));
    assert_eq!(a.form_connect.config_selected, 0);
    press(&mut a, Key::Up);
    assert_eq!(a.form_connect.focus, ConnectFocus::AuthSecret);
    press(&mut a, Key::Down);
    press(&mut a, Key::Char('j'));
    assert_eq!(a.form_connect.config_selected, 1);
    press(&mut a, Key::Char(' '));
    assert_eq!(a.form_connect.target, "y");
    assert_eq!(a.form_connect.focus, ConnectFocus::Target);
    press(&mut a, Key::Esc);
    assert_eq!(a.mode, Mode::List);

    a.open_connect_form(vec![]);
    assert_eq!(a.form_connect.focus, ConnectFocus::Target);
    press(&mut a, Key::BackTab);
    assert_eq!(a.form_connect.focus, ConnectFocus::AuthSecret);
    press(&mut a, Key::Down);
    assert_eq!(a.form_connect.focus, ConnectFocus::AuthSecret);
    press(&mut a, Key::Tab);
    assert_eq!(a.form_connect.focus, ConnectFocus::Target);
}

#[test]
fn typing_into_the_form_for_a_host() {
    let mut a = app();
    a.open_connect_form(vec![]);
    type_text(&mut a, "u@hx ");
    press(&mut a, Key::Backspace);
    press(&mut a, Key::Backspace);
    assert_eq!(a.form_connect.target, "u@h");
    press(&mut a, Key::Down);
    press(&mut a, Key::Char('p'));
    assert_eq!(a.form_connect.auth_type, AuthType::Password);
    press(&mut a, Key::Char('1'));
    assert_eq!(a.form_connect.auth_type, AuthType::KeyFile);
    press(&mut a, Key::Left);
    press(&mut a, Key::Right);
    press(&mut a, Key::Char(' '));
    assert_eq!(a.form_connect.auth_type, AuthType::Password);
    press(&mut a, Key::Down);
    type_text(&mut a, "a b");
    assert_eq!(a.form_connect.password, "a b");
    a.form_connect.auth_type = AuthType::KeyFile;
    type_text(&mut a, "a b");
    assert_eq!(a.form_connect.key_path, "ab");
    press(&mut a, Key::Backspace);
    assert_eq!((a.form_connect.key_path.as_str(), a.form_connect.password.as_str()), ("a", "a b"));
}

#[test]
fn submitting_the_form_for_a_host() {
    let mut a = app();
    a.open_connect_form(vec![]);
    assert_eq!(press(&mut a, Key::Enter), Ask::Resolve);
    a.submit_connect_host(&env(), None, 2);
    assert_eq!(message(&a), "请输入目标主机（如 user@host 或 ~/.ssh/config 别名）");
    assert_eq!(a.mode, Mode::ConnectHost);
    type_text(&mut a, " u@h:70000 ");
    a.submit_connect_host(&env(), None, 2);
    assert_eq!(a.status, Some(("端口格式错误: 70000".into(), true)));
    for _ in 0..5 {
        press(&mut a, Key::Backspace);
    }
    a.form_connect.key_path = " /key ".into();
    a.submit_connect_host(&env(), None, 2);
    assert_eq!(message(&a), "正在连接主机 [u@h:7]…");
    assert_eq!((a.mode, a.pending_reply), (Mode::List, Some(2)));
    assert_eq!(
        a.take_commands(),
        vec![Command::ConnectHost {
            params: ConnectParams {
                alias: None,
                user: "u".into(),
                host: "h".into(),
                ssh_port: 7,
                auth: AuthMethod::KeyFile(FilePath::of_text("/key")),
                check_host_key: true,
            }
        }]
    );
    a.form_connect.auth_type = AuthType::Password;
    a.form_connect.password = " p ".into();
    a.submit_connect_host(&env(), Some(b"Host h\n  HostName other\n"), 2);
    match &a.pending_cmds[0] {
        Command::ConnectHost { params } => {
            assert_eq!((params.host.as_str(), params.display_name().as_str()), ("other", "h"));
            assert_eq!(params.auth, AuthMethod::Password(" p ".into()));
        }
        _ => panic!(),
    }
}

#[test]
fn connecting_to_a_known_host() {
    let mut a = app();
    a.open_connect_form(vec![known("x")]);
    assert_eq!(press(&mut a, Key::Enter), Ask::Nothing);
    assert_eq!(message(&a), "正在连接已知主机 [x]…");
    assert_eq!(a.mode, Mode::List);
    match &a.pending_cmds[0] {
        Command::ConnectHost { params } => {
            assert_eq!((params.user.as_str(), params.host.as_str(), params.ssh_port), ("me", "address", 2200));
            assert!(params.check_host_key);
        }
        _ => panic!(),
    }
}

// ---------- The form for a tunnel ----------

fn parse(local: &str, remote: &str) -> Result<(u16, String, u32), String> {
    FormTunnel {
        session_id: "a".into(),
        focus: FormTunnelFocus::LocalPort,
        local_port: local.into(),
        remote: remote.into(),
    }
    .parse()
}

#[test]
fn parsing_the_form_for_a_tunnel() {
    let ok = |l: u16, h: &str, p: u32| Ok((l, h.to_string(), p));
    assert_eq!(parse(" 80 ", ""), ok(80, "localhost", 80));
    assert_eq!(parse("80", " 8080 "), ok(80, "localhost", 8080));
    assert_eq!(parse("80", " web : 90 "), ok(80, "web", 90));
    assert_eq!(parse("+80", "w:+9"), ok(80, "w", 9));
    assert_eq!(parse("80", "4294967295"), ok(80, "localhost", u32::MAX));
    assert_eq!(parse(" x ", ""), Err("本地端口格式错误：x".to_string()));
    assert_eq!(parse("65536", ""), Err("本地端口格式错误：65536".to_string()));
    assert_eq!(parse("80", "4294967296"), Err("远端端口格式错误：4294967296".to_string()));
    assert_eq!(parse("80", " : 9"), Err("远端 host 不能为空".to_string()));
    assert_eq!(parse("80", "w: 9x"), Err("远端端口格式错误： 9x".to_string()));
    assert_eq!(parse("80", "a:b:1"), Err("远端端口格式错误：b:1".to_string()));
    assert_eq!(
        parse("80", "web"),
        Err("远端目标格式应为 host:port 或只填端口：web".to_string())
    );
}

#[test]
fn the_form_for_a_tunnel_opens_with_a_scan() {
    let mut a = app();
    press(&mut a, Key::Char('a'));
    assert_eq!((a.mode, a.form_tunnel.focus), (Mode::InputTunnel, FormTunnelFocus::LocalPort));
    assert_eq!(a.pending_scan, Some("a".to_string()));
    assert_eq!(a.take_commands(), vec![Command::ScanPorts { session_id: "a".into() }]);
    a.on_ports(vec![
        RemotePort { port: 22, process: "sshd".into() },
        RemotePort { port: 8081, process: "".into() },
    ]);
    assert_eq!(a.pending_scan, None);
    assert_eq!(a.remote_ports.len(), 2);
    press(&mut a, Key::Enter);
    assert_eq!(a.form_tunnel.focus, FormTunnelFocus::RemoteList);
    press(&mut a, Key::Down);
    press(&mut a, Key::Down);
    assert_eq!(a.ports_selected, 1);
    assert_eq!(press(&mut a, Key::Char(' ')), Ask::PortToFill(8081));
    assert_eq!(press(&mut a, Key::Enter), Ask::PortToAdd(8081));
    a.on_ports(vec![]);
    assert_eq!(a.remote_ports.len(), 2);
    press(&mut a, Key::Char('R'));
    assert_eq!(a.take_commands(), vec![Command::ScanPorts { session_id: "a".into() }]);
    a.on_ports(vec![RemotePort { port: 22, process: "sshd".into() }]);
    assert_eq!(a.ports_selected, 0);
    press(&mut a, Key::Char('k'));
    assert_eq!(a.form_tunnel.focus, FormTunnelFocus::RemoteTarget);
    press(&mut a, Key::Esc);
    assert_eq!(a.mode, Mode::List);
    press(&mut a, Key::Char('p'));
    assert_eq!(a.form_tunnel.focus, FormTunnelFocus::RemoteList);
    press(&mut a, Key::Esc);
    a.on_ports(vec![RemotePort { port: 22, process: "sshd".into() }]);
    assert!(a.remote_ports.is_empty() && a.pending_scan.is_none());
}

#[test]
fn typing_into_the_form_for_a_tunnel() {
    let mut a = app();
    press(&mut a, Key::Char('a'));
    press(&mut a, Key::Enter);
    assert_eq!(a.form_tunnel.focus, FormTunnelFocus::RemoteTarget);
    press(&mut a, Key::Tab);
    assert_eq!(a.form_tunnel.focus, FormTunnelFocus::LocalPort);
    press(&mut a, Key::BackTab);
    assert_eq!(a.form_tunnel.focus, FormTunnelFocus::RemoteTarget);
    press(&mut a, Key::Up);
    type_text(&mut a, "8x0 9");
    press(&mut a, Key::Backspace);
    assert_eq!(a.form_tunnel.local_port, "80");
    press(&mut a, Key::Down);
    type_text(&mut a, "w:9x");
    press(&mut a, Key::Backspace);
    a.take_commands();
    press(&mut a, Key::Enter);
    assert_eq!(message(&a), "正在向主机 [a] 添加隧道 80…");
    assert_eq!(a.mode, Mode::List);
    assert_eq!(
        a.take_commands(),
        vec![Command::AddTunnel {
            session_id: "a".into(),
            local_port: 80,
            remote_host: "w".into(),
            remote_port: 9,
        }]
    );
}

#[test]
fn a_filled_form_asks_for_the_tunnel() {
    let mut a = app();
    press(&mut a, Key::Char('a'));
    a.take_commands();
    a.fill_form_from_port(8080, 8083);
    assert_eq!(message(&a), "已自动填入端口 8080（原本地端口已被占用，推荐可用端口 8083）");
    assert_eq!((a.form_tunnel.local_port.as_str(), a.form_tunnel.remote.as_str()), ("8083", "localhost:8080"));
    press(&mut a, Key::Enter);
    assert_eq!(
        a.take_commands(),
        vec![Command::AddTunnel {
            session_id: "a".into(),
            local_port: 8083,
            remote_host: "localhost".into(),
            remote_port: 8080,
        }]
    );
    a.fill_form_from_port(8080, 8080);
    assert_eq!(message(&a), "已自动填入端口 8080，可按需修改本地端口后回车提交");
}

#[test]
fn a_tunnel_is_added_from_a_port() {
    let mut a = app();
    press(&mut a, Key::Char('a'));
    a.take_commands();
    a.add_tunnel_from_port(80, 80, 3);
    assert_eq!(message(&a), "正在向主机 [a] 添加隧道 80 -> localhost:80 ");
    a.add_tunnel_from_port(80, 82, 3);
    assert_eq!(
        message(&a),
        "正在向主机 [a] 添加隧道 82 -> localhost:80 （本地端口已被占用，自动分配为 82）"
    );
    assert_eq!(a.mode, Mode::List);
    assert_eq!(a.take_commands().len(), 2);
}

#[test]
fn searching_for_a_free_port() {
    let free = |p: u16| p == 103;
    let mut search = PortSearch::new(100);
    while !search.on_probe(free(search.local)) {}
    assert_eq!(search.local, 103);
    let mut search = PortSearch::new(65533);
    let mut probes = 0;
    loop {
        probes += 1;
        if search.on_probe(false) {
            break;
        }
    }
    assert_eq!((search.local, probes), (65535, 3));
}

// ---------- The log, and news ----------

#[test]
fn scrolling_a_log() {
    let mut a = app();
    press(&mut a, Key::Char('l'));
    assert_eq!(a.mode, Mode::Log { port: 80, scroll: 0 });
    press(&mut a, Key::Char('G'));
    assert_eq!(a.mode, Mode::Log { port: 80, scroll: 2 });
    press(&mut a, Key::Down);
    assert_eq!(a.mode, Mode::Log { port: 80, scroll: 2 });
    press(&mut a, Key::Up);
    press(&mut a, Key::Char('k'));
    press(&mut a, Key::Char('k'));
    assert_eq!(a.mode, Mode::Log { port: 80, scroll: 0 });
    press(&mut a, Key::Char('j'));
    assert_eq!(a.mode, Mode::Log { port: 80, scroll: 1 });
    press(&mut a, Key::Char('g'));
    assert_eq!(a.mode, Mode::Log { port: 80, scroll: 0 });
    a.on_state(vec![]);
    press(&mut a, Key::Char('j'));
    assert_eq!(a.mode, Mode::Log { port: 80, scroll: 0 });
    press(&mut a, Key::Char('q'));
    assert_eq!(a.mode, Mode::List);
}

#[test]
fn selections_follow_the_hosts() {
    let mut a = app();
    a.selected_tunnel = 2;
    a.on_state(vec![host("a", vec![info(80, 1, true)])]);
    assert_eq!((a.active_host, a.selected_tunnel), (0, 0));
    a.on_state(vec![host("a", vec![]), host("b", vec![]), host("c", vec![info(1, 1, true), info(2, 1, true)])]);
    a.active_host = 2;
    a.selected_tunnel = 1;
    a.on_state(vec![host("a", vec![]), host("b", vec![info(1, 1, true)])]);
    assert_eq!((a.active_host, a.selected_tunnel), (1, 0));
    a.on_state(vec![]);
    assert_eq!((a.active_host, a.selected_tunnel), (0, 0));
    assert!(a.current_host().is_none());
}

#[test]
fn answers_come_or_time_out() {
    let mut a = app();
    a.on_reply(Some(Ok(())), 0);
    assert!(a.status.is_none());
    press(&mut a, Key::Char('x'));
    a.on_reply(None, 1 + 10 * SECOND);
    assert_eq!(a.pending_reply, Some(1));
    a.on_reply(None, 2 + 10 * SECOND);
    assert_eq!(a.status, Some(("后台命令超时，请重试".into(), true)));
    assert_eq!(a.pending_reply, None);
    press(&mut a, Key::Char('x'));
    a.on_reply(Some(Ok(())), 2);
    assert_eq!(a.status, Some(("操作成功".into(), false)));
    press(&mut a, Key::Char('x'));
    a.on_reply(Some(Err("bad".into())), 2);
    assert_eq!(a.status, Some(("bad".into(), true)));
    a.on_manager_gone();
    assert_eq!(a.status, Some(("后台任务已退出".into(), true)));
}

// ---------- Drawing ----------

#[test]
fn the_screen_without_hosts() {
    let mut a = App::new(vec![]);
    let b = a.draw_backdrop();
    assert_eq!(b.frame, fg(Color::Cyan));
    assert_eq!(texts(&b.title), [" ⚡ mtui ", "· 多主机 SSH 动态隧道管理 ", "(0 台主机已连接) "]);
    assert!(b.tabs.is_empty() && b.host_line.is_none());
    match b.body {
        Body::Welcome(lines) => {
            assert_eq!(lines.len(), 6);
            assert_eq!(texts(&lines[5]), ["  • 按 ", "[q]", " 退出程序"]);
        }
        _ => panic!(),
    }
    a.on_manager_gone();
    let b = a.draw_backdrop();
    assert_eq!(b.frame, bold(Color::Red));
    assert_eq!(texts(&b.title)[2..], ["· ", "✖ 后台任务已退出 "]);
}

#[test]
fn the_screen_with_hosts() {
    let mut a = app();
    press(&mut a, Key::Char('x'));
    let b = a.draw_backdrop();
    assert_eq!(b.frame, fg(Color::Green));
    assert_eq!(
        texts(&b.title),
        [" ⚡ mtui ", "· 主机列表 ", "(2 台主机 · [1-9/H/L] 快速切换) ", "· ", "✔ 正在断开主机 [a]… "]
    );
    assert_eq!(texts(&b.tabs[0]), ["[1] ", "● ", "a", " (3)"]);
    assert_eq!(texts(&b.tabs[1]), ["[2] ", "● ", "b", " (0)"]);
    assert_eq!(texts(&b.tabs[2]), [" [+] 新建主机 (n) "]);
    assert_eq!(
        texts(&b.host_line.unwrap()),
        [" 当前主机: ", "u@h:22", "  ·  状态: ", "● 已连接", "  ·  实时速率: ", "↓ 1.0 KB/s  ↑ 5 B/s"]
    );
    match b.body {
        Body::Tunnels(title, rows, selected) => {
            assert_eq!(title, " 隧道列表 (a) · 共 3 条 (2 运行中) ");
            assert_eq!(selected, 0);
            assert_eq!(
                texts(&rows[0].cells),
                ["● 运行中", "80", "r:8080", "3", "1.0 KB/s", "5 B/s", "2.0 KB", "10 B"]
            );
            assert_eq!(
                texts(&rows[1].cells),
                ["○ 已停用", "81", "r:8081", "-", "-", "-", "2.0 KB", "10 B"]
            );
            assert_eq!(rows[1].style, fg(Color::DarkGray));
        }
        _ => panic!(),
    }
    press(&mut a, Key::Right);
    match a.draw_backdrop().body {
        Body::NoTunnels(title, note) => {
            assert_eq!(title, " 隧道列表 (b) ");
            assert_eq!(note, "  ○ 当前主机暂无隧道 · 按 [a] 新建端口转发或发现远端服务");
        }
        _ => panic!(),
    }
    assert_eq!(a.draw_popup(), Popup::Closed);
}

#[test]
fn states_have_signs() {
    let mut a = app();
    let mut h = host("a", vec![]);
    h.status = ConnectionStatus::Reconnecting(2);
    a.on_state(vec![h]);
    let b = a.draw_backdrop();
    assert_eq!((b.tabs[0][1].text.as_str(), b.tabs[0][1].style), ("◐ ", fg(Color::Yellow)));
    assert_eq!(b.host_line.unwrap()[3].text, "◐ 重连中…");
    let mut h = host("a", vec![]);
    h.status = ConnectionStatus::Disconnected;
    a.on_state(vec![h]);
    let b = a.draw_backdrop();
    assert_eq!(b.tabs[0][1].text, "○ ");
    assert_eq!(b.host_line.unwrap()[3].text, "○ 已断开");
}

#[test]
fn the_screen_with_a_log() {
    let mut a = app();
    press(&mut a, Key::Down);
    press(&mut a, Key::Char('l'));
    press(&mut a, Key::Char('j'));
    let b = a.draw_backdrop();
    assert_eq!(b.body, Body::Log(" 隧道 81 日志 (已停用) ".into(), vec!["two".into(), "three".into()]));
    assert_eq!(b.footer, " [↑/↓]滚动  [g/G]首/尾  [q/Esc]返回    共 3 条");
    a.on_state(vec![]);
    assert_eq!(a.draw_backdrop().body, Body::Log(" 隧道 81 日志 (已停用) ".into(), vec![]));
    assert_eq!(a.draw_backdrop().footer, " [↑/↓]滚动  [g/G]首/尾  [q/Esc]返回    共 0 条");
}

#[test]
fn the_form_for_a_host_on_screen() {
    let mut a = app();
    a.open_connect_form(vec![known("a"), known("x")]);
    match a.draw_popup() {
        Popup::Host { target, auth, secret, list, hint } => {
            assert_eq!(texts(&target), ["  目标主机: ", " user@host:port 或 ~/.ssh/config 别名 "]);
            assert_eq!(
                texts(&auth),
                ["  认证方式: ", " (●) 🔑 私钥认证 ", "   ", " (○) 🔒 密码认证 ", "   (按 空格 或 ←/→ 切换)"]
            );
            assert_eq!(texts(&secret), ["  私钥路径: ", " ~/.ssh/id_ed25519 (默认) "]);
            assert_eq!(list.title, " 📋 ~/.ssh/config 发现的主机 (2 个 · 回车一键连接 / 空格填入) ");
            assert_eq!(list.highlight, marked(Color::Yellow));
            assert_eq!(texts(&list.rows[0].cells), ["▶ a", "address", "（默认）", "2200", "● 已连接"]);
            assert_eq!(texts(&list.rows[1].cells), ["  x", "address", "（默认）", "2200", "○ 未连接"]);
            assert_eq!(hint[1].text, "⚡一键连接   ");
        }
        _ => panic!(),
    }
    press(&mut a, Key::Tab);
    type_text(&mut a, "u@h");
    press(&mut a, Key::Tab);
    press(&mut a, Key::Char('2'));
    press(&mut a, Key::Tab);
    type_text(&mut a, "é1");
    match a.draw_popup() {
        Popup::Host { target, secret, hint, .. } => {
            assert_eq!(texts(&target), ["  目标主机: ", " u@h "]);
            assert_eq!(texts(&secret), ["▶ 登录密码: ", " •••█ "]);
            assert_eq!(secret[1].style, marked(Color::Cyan));
            assert_eq!(hint[1].text, "切换焦点   ");
        }
        _ => panic!(),
    }
}

#[test]
fn equal_lengths_of_passwords_look_alike() {
    let mut a = app();
    a.open_connect_form(vec![]);
    a.form_connect.auth_type = AuthType::Password;
    a.form_connect.password = "secret".into();
    let first = a.draw_popup();
    a.form_connect.password = "SECRET".into();
    assert_eq!(a.draw_popup(), first);
}

#[test]
fn the_form_for_a_tunnel_on_screen() {
    let mut a = app();
    press(&mut a, Key::Char('p'));
    match a.draw_popup() {
        Popup::Tunnel { title, local, remote, list, hint } => {
            assert_eq!(title, " ➕ 新建隧道 / 端口转发 · 目标主机 [a] ");
            assert_eq!(
                texts(&local),
                ["  本地监听端口: ", " （必填，例如 8080） ", "   (本机监听并转发流量的端口)"]
            );
            assert_eq!(
                texts(&remote),
                ["  远端目标服务: ", " （留空默认 localhost:本地端口） ", "   (格式 host:port 或 纯端口)"]
            );
            assert_eq!(list.title, " ⚡ 远端可用服务 (🔍 正在探测中...) ");
            assert_eq!(list.note, "  ⏳ 正在通过 SSH 会话执行端口探测 (ss / netstat)...");
            assert_eq!(hint[7].text, "刷新   ");
        }
        _ => panic!(),
    }
    a.on_ports(vec![
        RemotePort { port: 22, process: "sshd".into() },
        RemotePort { port: 8080, process: "".into() },
        RemotePort { port: 8081, process: "x".into() },
    ]);
    match a.draw_popup() {
        Popup::Tunnel { list, .. } => {
            assert_eq!(list.title, " ⚡ 远端可用服务 (回车一键转发 · 空格填入表单 · 按 r 刷新) ");
            assert_eq!(texts(&list.rows[0].cells), ["▶ 22", "sshd", "○ 未映射"]);
            assert_eq!(texts(&list.rows[1].cells), ["  8080", "未知进程", "● 已映射 (本地 80)"]);
            assert_eq!(texts(&list.rows[2].cells), ["  8081", "x", "○ 已映射但停用 (本地 81)"]);
        }
        _ => panic!(),
    }
    press(&mut a, Key::Tab);
    type_text(&mut a, "80");
    match a.draw_popup() {
        Popup::Tunnel { local, .. } => assert_eq!(local[1].text, " 80█ "),
        _ => panic!(),
    }
}

#[test]
fn forms_stand_in_the_middle() {
    let area = |x: u16, y: u16, width: u16, height: u16| Area { x, y, width, height };
    assert_eq!(centered_rect(76, 19, area(0, 0, 100, 40)), area(12, 10, 76, 19));
    assert_eq!(centered_rect(76, 19, area(1, 2, 50, 10)), area(2, 3, 48, 8));
    assert_eq!(centered_rect(76, 19, area(0, 0, 1, 0)), area(0, 0, 0, 0));
}
