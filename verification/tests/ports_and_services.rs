use pylot::ports::{listening_ports, parse_port_pid, sort_dedup_by_port, PortTool};
use pylot::services::{ServiceError, ServiceManager, ServiceState};

const SS_REPORT: &str = "State  Recv-Q Send-Q Local Address:Port  Peer Address:Port Process
LISTEN 0      4096   127.0.0.53%lo:53   0.0.0.0:*    users:((\"systemd-resolve\",pid=612,fd=14))
LISTEN 0      128    0.0.0.0:22         0.0.0.0:*    users:((\"sshd\",pid=1001,fd=3))
LISTEN 0      128    [::]:22            [::]:*       users:((\"sshd6\",pid=1002,fd=4))
LISTEN 0      511    *:3000             *:*          users:((\"node\",pid=4242,fd=20))
LISTEN 0      128    0.0.0.0:8080       0.0.0.0:*
";

const LSOF_REPORT: &str = "COMMAND   PID USER   FD   TYPE DEVICE SIZE/OFF NODE NAME
postgres   99 me     5u  IPv4 0x2         0t0  TCP 127.0.0.1:5432 (LISTEN)
node     4242 me    20u  IPv6 0x1         0t0  TCP *:3000 (LISTEN)
short line
";

fn owned(v: &[(u16, &str)]) -> Vec<(u16, String)> {
    v.iter().map(|(p, n)| (*p, n.to_string())).collect()
}

#[test]
fn ss_ports_sorted_one_per_port() {
    let ports = listening_ports(SS_REPORT, PortTool::Ss);
    assert_eq!(
        ports,
        owned(&[(22, "sshd"), (53, "systemd-resolve"), (3000, "node"), (8080, "unknown")])
    );
}

#[test]
fn lsof_ports_sorted() {
    let ports = listening_ports(LSOF_REPORT, PortTool::Lsof);
    assert_eq!(ports, owned(&[(3000, "node"), (5432, "postgres")]));
}

#[test]
fn empty_reports_have_no_ports() {
    assert!(listening_ports("", PortTool::Ss).is_empty());
    assert!(listening_ports("State Recv-Q\n", PortTool::Ss).is_empty());
}

#[test]
fn sort_dedup_keeps_first_of_each_port() {
    let r = sort_dedup_by_port(owned(&[(9, "b"), (3, "x"), (9, "a"), (3, "y"), (1, "z")]));
    assert_eq!(r, owned(&[(1, "z"), (3, "x"), (9, "b")]));
}

#[test]
fn pid_of_port_from_ss() {
    let report = "State Recv-Q Send-Q Local Address:Port Peer Address:Port Process
LISTEN 0 128 0.0.0.0:9000 0.0.0.0:*
LISTEN 0 511 *:3000 *:* users:((\"node\",pid=4242,fd=20))
";
    assert_eq!(parse_port_pid(report, PortTool::Ss), Some(4242));
    assert_eq!(parse_port_pid("State\r\nLISTEN users:((\"n\",pid=77\r\n", PortTool::Ss), Some(77));
    assert_eq!(parse_port_pid("State\n", PortTool::Ss), None);
    assert_eq!(parse_port_pid("LISTEN pid=5,fd=1\n", PortTool::Ss), None);
}

#[test]
fn pid_of_port_from_lsof() {
    assert_eq!(parse_port_pid("4242\n", PortTool::Lsof), Some(4242));
    assert_eq!(parse_port_pid("4242\n4243\n", PortTool::Lsof), None);
    assert_eq!(parse_port_pid("", PortTool::Lsof), None);
}

#[test]
fn register_then_lookup() {
    let mut s = ServiceState::new();
    s.register("web", "api", 10);
    s.register("web", "worker", 11);
    s.register("other", "db", 12);
    assert_eq!(
        s.get_services("web"),
        vec![("api".to_string(), 10), ("worker".to_string(), 11)]
    );
    assert_eq!(s.get_services("none"), Vec::<(String, u32)>::new());
}

#[test]
fn register_overwrites_pid() {
    let mut s = ServiceState::new();
    s.register("web", "api", 10);
    s.register("web", "api", 20);
    assert_eq!(s.get_services("web"), vec![("api".to_string(), 20)]);
}

#[test]
fn unregister_undoes_register_and_drops_empty_context() {
    let mut s = ServiceState::new();
    s.register("web", "api", 10);
    s.unregister("web", "api");
    assert!(s.get_services("web").is_empty());
    assert!(!s.running.contains_key("web"));
    s.unregister("web", "api");
    assert!(s.running.is_empty());
}

#[test]
fn register_started_records_each_in_order() {
    let mut s = ServiceState::default();
    s.register_started(
        "web",
        &vec![("api".to_string(), 5), ("worker".to_string(), 6)],
    );
    assert_eq!(
        s.get_services("web"),
        vec![("api".to_string(), 5), ("worker".to_string(), 6)]
    );
}

#[test]
fn state_path_under_home() {
    assert_eq!(ServiceState::state_path("/home/me"), "/home/me/.pylot/services.json");
    assert_eq!(ServiceState::state_path("/home/me/"), "/home/me/.pylot/services.json");
}

#[test]
fn unknown_process_is_not_alive_and_cannot_be_killed() {
    let mut m = ServiceManager::new();
    assert!(!m.is_process_alive(u32::MAX));
    let e = m.kill_process(u32::MAX).unwrap_err();
    assert_eq!(e, ServiceError::ProcessNotFound(u32::MAX));
    assert_eq!(e.message(), "Process 4294967295 not found");
    assert_eq!(m.process_name_or_unknown(u32::MAX), "unknown");
}

#[test]
fn health_and_stop_of_dead_services() {
    let mut m = ServiceManager::new();
    let mut s = ServiceState::new();
    s.register("web", "api", u32::MAX);
    s.register("web", "job", u32::MAX - 1);
    let h = m.service_health(&s, "web");
    assert_eq!(
        h,
        vec![("api".to_string(), u32::MAX, false), ("job".to_string(), u32::MAX - 1, false)]
    );
    let stopped = m.stop_services(&mut s, "web");
    assert!(stopped.is_empty());
    assert!(s.get_services("web").is_empty());
    assert!(s.running.is_empty());
}

#[test]
fn port_conflicts_from_lookups() {
    let mut m = ServiceManager::new();
    let lookups = vec![
        (3000u16, Some("4294967295\n".to_string())),
        (4000u16, None),
        (5000u16, Some(String::new())),
    ];
    let c = m.check_port_conflicts(&lookups, PortTool::Lsof);
    assert_eq!(c, vec![(3000, u32::MAX, "unknown".to_string())]);
    assert_eq!(
        m.find_process_on_port("4294967294\n", PortTool::Lsof),
        Some((u32::MAX - 1, "unknown".to_string()))
    );
    assert_eq!(m.find_process_on_port("x", PortTool::Lsof), None);
}

#[test]
fn manager_lists_listening_ports() {
    let mut m = ServiceManager::new();
    assert_eq!(
        m.get_listening_ports(LSOF_REPORT, PortTool::Lsof),
        owned(&[(3000, "node"), (5432, "postgres")])
    );
}

#[test]
fn service_started_again_keeps_last_pid() {
    let mut s = ServiceState::new();
    s.register("web", "old", 1);
    s.register_started(
        "web",
        &vec![("api".to_string(), 5), ("job".to_string(), 6), ("api".to_string(), 7)],
    );
    assert_eq!(
        s.get_services("web"),
        vec![("old".to_string(), 1), ("api".to_string(), 7), ("job".to_string(), 6)]
    );
}

#[test]
fn running_process_has_its_name() {
    let mut m = ServiceManager::new();
    if m.is_process_alive(1) {
        let name = m.process_name_or_unknown(1);
        assert!(!name.is_empty());
        assert_eq!(
            m.find_process_on_port("1\n", PortTool::Lsof),
            Some((1, name.clone()))
        );
    }
}
