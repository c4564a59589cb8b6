//! Listening ports in the output of `ss` and `netstat`.

use mtui::ports::extract_process;
use mtui::ports::parse_listen_ports;
use mtui::ports::scan_command;
use mtui::ports::ChannelEvent;
use mtui::ports::PortScan;
use mtui::ports::RemotePort;

#[test]
fn parse_ss_output() {
    let out = "\
State  Recv-Q Send-Q Local Address:Port  Peer Address:Port Process
LISTEN 0      128    0.0.0.0:22          0.0.0.0:*       users:((\"sshd\",pid=123,fd=3))
LISTEN 0      511    127.0.0.1:8848      0.0.0.0:*       users:((\"python3\",pid=456,fd=5))
LISTEN 0      5      127.0.0.1:8000      0.0.0.0:*       users:((\"python3\",pid=789,fd=3))
";
    let ports = parse_listen_ports(out);
    assert_eq!(ports.len(), 3);
    assert_eq!(
        ports[0],
        RemotePort {
            port: 22,
            process: "sshd".into()
        }
    );
    assert_eq!(
        ports[1],
        RemotePort {
            port: 8000,
            process: "python3".into()
        }
    );
    assert_eq!(
        ports[2],
        RemotePort {
            port: 8848,
            process: "python3".into()
        }
    );
}

#[test]
fn parse_netstat_output() {
    let out = "\
Active Internet connections (only servers)
Proto Recv-Q Send-Q Local Address           Foreign Address         State       PID/Program name
tcp        0      0 0.0.0.0:22              0.0.0.0:*               LISTEN      123/sshd
tcp        0      0 127.0.0.1:631           0.0.0.0:*               LISTEN      456/cupsd
";
    let ports = parse_listen_ports(out);
    assert_eq!(ports.len(), 2);
    assert_eq!(
        ports[0],
        RemotePort {
            port: 22,
            process: "sshd".into()
        }
    );
    assert_eq!(
        ports[1],
        RemotePort {
            port: 631,
            process: "cupsd".into()
        }
    );
}

#[test]
fn dedup_and_sort() {
    let out = "LISTEN 0 1 0.0.0.0:80 0.0.0.0:* users:((\"a\",pid=1))\n\
                LISTEN 0 1 0.0.0.0:80 0.0.0.0:* users:((\"b\",pid=2))\n\
                LISTEN 0 1 0.0.0.0:22 0.0.0.0:* users:((\"c\",pid=3))\n";
    let ports = parse_listen_ports(out);
    assert_eq!(ports.len(), 2);
    assert_eq!(ports[0].port, 22);
    assert_eq!(ports[1].port, 80);
}

#[test]
fn the_first_line_of_a_port_names_its_process() {
    let out = "LISTEN 0 1 0.0.0.0:80 0.0.0.0:* users:((\"a\",pid=1))\r\n\
                LISTEN 0 1 [::]:80 [::]:* users:((\"b\",pid=2))";
    let ports = parse_listen_ports(out);
    assert_eq!(ports, vec![RemotePort { port: 80, process: "a".into() }]);
}

#[test]
fn lines_without_a_usable_port_are_passed_over() {
    for line in [
        "",
        "ESTAB 0 1 0.0.0.0:80 0.0.0.0:*",
        "LISTEN 0 1",
        "LISTEN 0 1 nocolon x",
        "LISTEN 0 1 0.0.0.0:0 x",
        "LISTEN 0 1 0.0.0.0:* x",
        "LISTEN 0 1 0.0.0.0:65536 x",
    ] {
        assert!(parse_listen_ports(line).is_empty(), "{}", line);
    }
    assert_eq!(parse_listen_ports("LISTEN 0 1 0.0.0.0:65535x x")[0].port, 65535);
}

#[test]
fn process_names() {
    assert_eq!(extract_process("x ((\"nginx\",pid=1)) LISTEN 1/other"), "nginx");
    assert_eq!(extract_process("x ((\"open LISTEN 12/cups-d"), "cups");
    assert_eq!(extract_process("LISTEN 12/-"), "");
    assert_eq!(extract_process("LISTEN"), "");
    assert_eq!(extract_process("12/sshd"), "");
}

#[test]
fn a_scan_gathers_bytes_until_the_end() {
    assert_eq!(scan_command(), "ss -tln 2>/dev/null || netstat -tln 2>/dev/null");
    let mut scan = PortScan::new();
    scan.receive(ChannelEvent::Data(b"LISTEN 0 1 0.0.0.0:8".to_vec()));
    scan.receive(ChannelEvent::Other);
    scan.receive(ChannelEvent::ExtendedData(b"0 x ((\"a\xff\"".to_vec()));
    assert!(!scan.done);
    scan.receive(ChannelEvent::Eof);
    assert!(scan.done);
    let ports = scan.ports();
    assert_eq!(ports, vec![RemotePort { port: 80, process: "a\u{fffd}".into() }]);
}
