//! Target strings and the SSH configuration.

use mtui::paths::Environment;
use mtui::paths::FilePath;
use mtui::ssh_hosts::describe_host;
use mtui::ssh_hosts::list_host_names;
use mtui::ssh_hosts::list_ssh_config_hosts;
use mtui::target::command_line_auth;
use mtui::target::resolve_target_str;
use mtui::target::resolve_with;
use mtui::target::AuthMethod;
use mtui::target::ConnectParams;
use mtui::target::HostSettings;
use mtui::target::SshConfigHost;

fn env() -> Environment {
    Environment {
        home: Some("/home/me".into()),
        user: Some("me".into()),
        logname: Some("other".into()),
        config_dir: None,
        xdg_config_home: None,
        backslash: false,
    }
}

fn key(path: &str) -> AuthMethod {
    AuthMethod::KeyFile(FilePath::of_text(path))
}

fn key_at_home(rest: &str) -> AuthMethod {
    AuthMethod::KeyFile(FilePath::of_text("/home/me").join(rest))
}

const CONFIG: &str = "\
# hosts of the office
Host web web-alias
    HostName 10.0.0.7
    User deploy
    Port 2200
    IdentityFile /keys/web

Host *.internal db ?x
    HostName db.example

host web late
    HostName late.example

Host plain
    User root
";

#[test]
fn test_resolve_target_str() {
    let res = resolve_target_str("ubuntu@1.2.3.4:2222", None, 22, false, &env(), None).unwrap();
    assert_eq!(res.user, "ubuntu");
    assert_eq!(res.host, "1.2.3.4");
    assert_eq!(res.ssh_port, 2222);

    let res2 = resolve_target_str(
        "root@10.0.0.1",
        Some(AuthMethod::Password("secret".into())),
        22,
        false,
        &env(),
        None,
    )
    .unwrap();
    assert_eq!(res2.user, "root");
    assert_eq!(res2.host, "10.0.0.1");
    assert_eq!(res2.ssh_port, 22);
    assert_eq!(res2.auth, AuthMethod::Password("secret".into()));
}

#[test]
fn a_bare_host_takes_the_defaults() {
    let res = resolve_target_str("example.org", None, 2022, true, &env(), None).unwrap();
    assert_eq!(
        res,
        ConnectParams {
            alias: None,
            user: "me".into(),
            host: "example.org".into(),
            ssh_port: 2022,
            auth: key_at_home(".ssh/id_ed25519"),
            check_host_key: false,
        }
    );
}

#[test]
fn the_login_name_comes_from_the_environment() {
    let mut e = env();
    e.user = None;
    assert_eq!(resolve_target_str("h", None, 22, false, &e, None).unwrap().user, "other");
    e.logname = None;
    assert_eq!(resolve_target_str("h", None, 22, false, &e, None).unwrap().user, "root");
    e.home = None;
    assert_eq!(
        resolve_target_str("h", None, 22, false, &e, None).unwrap().auth,
        AuthMethod::KeyFile(FilePath::of_text("").join(".ssh/id_ed25519"))
    );
}

#[test]
fn ports_that_do_not_fit_are_refused() {
    for (target, shown) in [("h:65536", "65536"), ("u@h:", ""), ("u@h:99999999999", "99999999999")] {
        assert_eq!(
            resolve_target_str(target, None, 22, false, &env(), None),
            Err(format!("端口格式错误: {}", shown))
        );
    }
    let res = resolve_target_str("u@h:x2", None, 22, false, &env(), None).unwrap();
    assert_eq!((res.host.as_str(), res.ssh_port), ("h:x2", 22));
    let res = resolve_target_str("u@[::1]:22:2222", None, 22, false, &env(), None).unwrap();
    assert_eq!((res.host.as_str(), res.ssh_port), ("[::1]:22", 2222));
    let res = resolve_target_str("u@v@h", None, 22, false, &env(), None).unwrap();
    assert_eq!((res.user.as_str(), res.host.as_str()), ("u", "v@h"));
}

#[test]
fn the_configuration_fills_in_what_is_not_named() {
    let config = Some(CONFIG.as_bytes());
    let res = resolve_target_str("web", None, 22, false, &env(), config).unwrap();
    assert_eq!(
        res,
        ConnectParams {
            alias: Some("web".into()),
            user: "deploy".into(),
            host: "10.0.0.7".into(),
            ssh_port: 2200,
            auth: key("/keys/web"),
            check_host_key: true,
        }
    );
    assert_eq!(res.display_name(), "web");

    let res = resolve_target_str("root@web:2", Some(key("k")), 22, false, &env(), config).unwrap();
    assert_eq!(
        (res.user.as_str(), res.host.as_str(), res.ssh_port, res.auth),
        ("root", "10.0.0.7", 2, key("k"))
    );

    let res = resolve_target_str("unknown", None, 22, false, &env(), config).unwrap();
    assert_eq!((res.alias, res.host.as_str(), res.ssh_port), (None, "unknown", 22));
}

#[test]
fn a_key_below_the_home_directory_is_found() {
    let text = "\
# 主机 include
Host box # ~ is home
    HostName 10.1.1.1
    User ops
    ServerAliveInterval 30
    IdentityFile ~/.ssh/box

Host bare
    IdentityFile ~
Host other
    HostName o.example
    IdentityFile ~else/key
";
    let config = Some(text.as_bytes());
    let res = resolve_target_str("box", None, 22, false, &env(), config).unwrap();
    assert_eq!(
        res,
        ConnectParams {
            alias: Some("box".into()),
            user: "ops".into(),
            host: "10.1.1.1".into(),
            ssh_port: 22,
            auth: key("/home/me/.ssh/box"),
            check_host_key: true,
        }
    );
    let mut elsewhere = env();
    elsewhere.home = Some("/srv/you/".into());
    let res = resolve_target_str("box", None, 22, false, &elsewhere, config).unwrap();
    assert_eq!((res.host.as_str(), res.auth), ("10.1.1.1", key("/srv/you/.ssh/box")));
    let res = resolve_target_str("bare", None, 22, false, &env(), config).unwrap();
    assert_eq!(res.auth, key("/home/me"));
    let res = resolve_target_str("other", None, 22, false, &env(), config).unwrap();
    assert_eq!((res.host.as_str(), res.auth), ("o.example", key("~else/key")));

    let hosts = list_ssh_config_hosts(text, &env());
    let keys: Vec<Option<FilePath>> = hosts.iter().map(|h| h.identity_file.clone()).collect();
    let names: Vec<&str> = hosts.iter().map(|h| h.alias.as_str()).collect();
    assert_eq!(names, vec!["box", "#", "~", "is", "home", "bare", "other"]);
    assert_eq!(keys[0], Some(FilePath::of_text("/home/me/.ssh/box")));
    assert_eq!(keys[6], Some(FilePath::of_text("~else/key")));
}

#[test]
fn a_refused_configuration_says_nothing() {
    let text = "Host box\n  HostName 10.1.1.1\n  Port many\n";
    let res = resolve_target_str("box", None, 22, false, &env(), Some(text.as_bytes())).unwrap();
    assert_eq!((res.alias, res.host.as_str()), (None, "box"));
    assert!(list_ssh_config_hosts(text, &env()).is_empty());
}

#[test]
fn settings_go_before_defaults_and_behind_the_target() {
    let settings = Some(HostSettings {
        host_name: Some("address".into()),
        user: Some("configured".into()),
        port: Some(7),
        identity_files: Some(vec!["~/a".into(), "/b".into()]),
    });
    let res = resolve_with("name", None, 22, false, &env(), &settings).unwrap();
    assert_eq!(
        res,
        ConnectParams {
            alias: Some("name".into()),
            user: "configured".into(),
            host: "address".into(),
            ssh_port: 7,
            auth: key_at_home("a"),
            check_host_key: true,
        }
    );
    let res = resolve_with("u@name:8", None, 22, false, &env(), &settings).unwrap();
    assert_eq!((res.user.as_str(), res.ssh_port), ("u", 8));
}

#[test]
fn a_shown_name_leads_back_to_its_host() {
    let params = ConnectParams {
        alias: None,
        user: "me".into(),
        host: "fe80::1".into(),
        ssh_port: 2222,
        auth: key("/k"),
        check_host_key: true,
    };
    let name = params.display_name();
    assert_eq!(name, "me@fe80::1:2222");
    let back = resolve_target_str(&name, Some(key("/k")), 22, false, &env(), None).unwrap();
    assert_eq!(back, params);
}

#[test]
fn an_alias_is_the_shown_name() {
    let params = ConnectParams {
        alias: Some("box".into()),
        user: "me".into(),
        host: "h".into(),
        ssh_port: 22,
        auth: key("/k"),
        check_host_key: true,
    };
    assert_eq!(params.display_name(), "box");
    assert_eq!(params.clone(), params);
}

#[test]
fn a_password_goes_before_a_key() {
    assert_eq!(
        command_line_auth(Some("p".into()), Some(FilePath::of_text("k"))),
        Some(AuthMethod::Password("p".into()))
    );
    assert_eq!(command_line_auth(None, Some(FilePath::of_text("k"))), Some(key("k")));
    assert_eq!(command_line_auth(None, None), None);
}

#[test]
fn hosts_are_listed_once_and_without_patterns() {
    assert_eq!(list_host_names(CONFIG), vec!["web", "web-alias", "db", "late", "plain"]);
    assert!(list_host_names("Hostname x\nHOST y\n#Host z\nHost\n").is_empty());
}

#[test]
fn listed_hosts_carry_their_settings() {
    let hosts = list_ssh_config_hosts(CONFIG, &env());
    let aliases: Vec<&str> = hosts.iter().map(|h| h.alias.as_str()).collect();
    assert_eq!(aliases, vec!["web", "web-alias", "db", "late", "plain"]);
    assert_eq!(
        hosts[0],
        SshConfigHost {
            alias: "web".into(),
            host_name: "10.0.0.7".into(),
            user: "deploy".into(),
            port: 2200,
            identity_file: Some(FilePath::of_text("/keys/web")),
        }
    );
    assert_eq!(hosts[2].host_name, "db.example");
    assert_eq!((hosts[4].host_name.as_str(), hosts[4].user.as_str(), hosts[4].port), ("plain", "root", 22));
}

#[test]
fn a_listed_host_is_connected_with_its_key() {
    let host = SshConfigHost {
        alias: "a".into(),
        host_name: "h".into(),
        user: String::new(),
        port: 2200,
        identity_file: Some(FilePath::of_text("~/k")),
    };
    assert_eq!(
        host.to_connect_params(false, &env()),
        ConnectParams {
            alias: Some("a".into()),
            user: "me".into(),
            host: "h".into(),
            ssh_port: 2200,
            auth: key_at_home("k"),
            check_host_key: false,
        }
    );
    let mut other = host.clone();
    other.user = "u".into();
    other.identity_file = None;
    let params = other.to_connect_params(true, &env());
    assert_eq!((params.user.as_str(), params.auth), ("u", key_at_home(".ssh/id_ed25519")));
}

#[test]
fn choosing_and_typing_a_host_agree() {
    let settings = HostSettings {
        host_name: Some("address".into()),
        user: None,
        port: None,
        identity_files: Some(vec!["~/a".into()]),
    };
    let chosen = describe_host("name", &settings, &env()).to_connect_params(true, &env());
    let typed = resolve_with("name", None, 22, false, &env(), &Some(settings)).unwrap();
    assert_eq!(chosen, typed);
}
