use portwatch::{build_port_list, ProcessEntry, SocketEntry, SocketState, TcpSocket};

fn listener(port: u16, state: SocketState, pids: Vec<u32>) -> SocketEntry {
    SocketEntry {
        tcp: Some(TcpSocket {
            port,
            address: String::from("0.0.0.0"),
            state,
        }),
        pids,
    }
}

fn proc_entry(pid: u32, name: &str) -> ProcessEntry {
    ProcessEntry {
        pid,
        name: String::from(name),
        exe: Some(String::from("/usr/bin/example")),
        cwd: Some(String::from("/home/user")),
        cmd: vec![String::from(name), String::from("--serve")],
    }
}

#[test]
fn join_copies_process_fields() {
    let sockets = vec![listener(8080, SocketState::Listen, vec![42])];
    let procs = vec![proc_entry(42, "webd")];
    let out = build_port_list(&sockets, &procs);
    assert_eq!(out.len(), 1);
    assert_eq!(out[0].port, 8080);
    assert_eq!(out[0].pid, 42);
    assert_eq!(out[0].process_name, "webd");
    assert_eq!(out[0].exe_path.as_deref(), Some("/usr/bin/example"));
    assert_eq!(out[0].cwd.as_deref(), Some("/home/user"));
    assert_eq!(out[0].cmd_args, vec!["webd", "--serve"]);
    assert_eq!(out[0].address, "0.0.0.0");
}

#[test]
fn unresolved_process_keeps_socket() {
    let sockets = vec![listener(9000, SocketState::Listen, vec![7])];
    let procs: Vec<ProcessEntry> = Vec::new();
    let out = build_port_list(&sockets, &procs);
    assert_eq!(out.len(), 1);
    assert_eq!(out[0].process_name, "unknown");
    assert_eq!(out[0].exe_path, None);
    assert_eq!(out[0].cwd, None);
    assert!(out[0].cmd_args.is_empty());
}

#[test]
fn non_listening_sockets_are_dropped() {
    let sockets = vec![
        listener(80, SocketState::Established, vec![1]),
        listener(81, SocketState::Listen, vec![2]),
        listener(82, SocketState::TimeWait, vec![3]),
        SocketEntry {
            tcp: None,
            pids: vec![4],
        },
    ];
    let out = build_port_list(&sockets, &Vec::new());
    assert_eq!(out.len(), 1);
    assert_eq!(out[0].port, 81);
}

#[test]
fn socket_without_owner_is_dropped() {
    let sockets = vec![listener(80, SocketState::Listen, Vec::new())];
    let out = build_port_list(&sockets, &Vec::new());
    assert!(out.is_empty());
}

#[test]
fn first_reported_pid_wins() {
    let sockets = vec![listener(80, SocketState::Listen, vec![5, 6, 7])];
    let procs = vec![proc_entry(6, "other"), proc_entry(5, "first")];
    let out = build_port_list(&sockets, &procs);
    assert_eq!(out.len(), 1);
    assert_eq!(out[0].pid, 5);
    assert_eq!(out[0].process_name, "first");
}

#[test]
fn duplicate_keys_collapse_to_first() {
    let sockets = vec![
        listener(80, SocketState::Listen, vec![1]),
        listener(443, SocketState::Listen, vec![2]),
        listener(80, SocketState::Listen, vec![1]),
    ];
    let out = build_port_list(&sockets, &Vec::new());
    assert_eq!(out.len(), 2);
    assert_eq!((out[0].port, out[0].pid), (80, 1));
    assert_eq!((out[1].port, out[1].pid), (443, 2));
}

#[test]
fn same_port_different_pids_both_stay() {
    let sockets = vec![
        listener(80, SocketState::Listen, vec![1]),
        listener(80, SocketState::Listen, vec![2]),
    ];
    let out = build_port_list(&sockets, &Vec::new());
    assert_eq!(out.len(), 2);
    assert_eq!((out[0].port, out[0].pid), (80, 1));
    assert_eq!((out[1].port, out[1].pid), (80, 2));
}

#[test]
fn output_is_sorted_by_port_and_stable() {
    let mut sockets = vec![
        listener(443, SocketState::Listen, vec![10]),
        listener(80, SocketState::Listen, vec![20]),
        listener(443, SocketState::Listen, vec![30]),
        listener(22, SocketState::Listen, vec![40]),
    ];
    let out = build_port_list(&sockets, &Vec::new());
    let keys: Vec<(u16, u32)> = out.iter().map(|p| (p.port, p.pid)).collect();
    assert_eq!(keys, vec![(22, 40), (80, 20), (443, 10), (443, 30)]);

    sockets.push(listener(1, SocketState::Listen, vec![50]));
    let out = build_port_list(&sockets, &Vec::new());
    assert_eq!(out[0].port, 1);
    for w in out.windows(2) {
        assert!(w[0].port <= w[1].port);
    }
}

#[test]
fn no_two_records_share_port_and_pid() {
    let sockets = vec![
        listener(80, SocketState::Listen, vec![1]),
        listener(80, SocketState::Listen, vec![1]),
        listener(80, SocketState::Listen, vec![2]),
        listener(443, SocketState::Listen, vec![1]),
        listener(443, SocketState::Listen, vec![1]),
    ];
    let out = build_port_list(&sockets, &Vec::new());
    for i in 0..out.len() {
        for j in 0..out.len() {
            if i != j {
                assert!((out[i].port, out[i].pid) != (out[j].port, out[j].pid));
            }
        }
    }
    assert_eq!(out.len(), 3);
}
