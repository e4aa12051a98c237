use sentinelx::forensics::{
    build_inode_map, decode_capabilities, lookup_inode, lookup_uid, ns_inode, parse_addr_port,
    parse_cmdline, parse_environ, parse_hex_ipv6, parse_module_line, parse_net_line,
    parse_stat_start_ticks, parse_status, process_status, socket_inode, ConnectionState,
    KernelModuleInfo, ModuleSource, ModuleState, NetworkConnection, ProcessStatus, Protocol,
    SocketAddr,
};
use sentinelx::snapshot::{
    assemble_process, open_file_list, snapshot_from, sorted_unique, system_info, ForensicReport,
    ForensicSnapshot, NamespaceInfo, ProcessInfo,
};

const TEST_BINARY_DIGEST: &str = "6f850b10b66ff0af26a1151306cbc59427ae2572330935d95ab5febdef8763bf";
const TEST_HASH_DIGEST: &str = "6b70a820eb978882fa49b199c853a5676e5e1a4744371be5affd4b3af1f5dde6";

fn no_namespaces() -> NamespaceInfo {
    NamespaceInfo { pid_ns: None, net_ns: None, mnt_ns: None, user_ns: None, uts_ns: None, ipc_ns: None }
}

fn connection(local: &str, lport: u16, remote: &str, rport: u16, protocol: Protocol, state: ConnectionState, pid: Option<u32>, inode: u64, name: Option<&str>) -> NetworkConnection {
    NetworkConnection {
        local_addr: SocketAddr { ip: local.to_string(), port: lport },
        remote_addr: Some(SocketAddr { ip: remote.to_string(), port: rport }),
        protocol,
        state,
        pid,
        inode,
        uid: 0,
        process_name: name.map(|n| n.to_string()),
        process_hash: None,
    }
}

fn make_test_snapshot() -> ForensicSnapshot {
    ForensicSnapshot {
        id: "0f8fad5b-d9cb-469f-a165-70867728950e".to_string(),
        timestamp: "2024-01-01 00:00:00 UTC".to_string(),
        hostname: "test-host".to_string(),
        kernel_version: "6.1.0-test".to_string(),
        processes: vec![ProcessInfo {
            pid: 1,
            ppid: 0,
            name: "systemd".to_string(),
            binary_path: "/usr/lib/systemd/systemd".to_string(),
            command_line: vec!["/usr/lib/systemd/systemd".to_string()],
            user: "root".to_string(),
            uid: 0,
            gid: 0,
            start_time: 0,
            status: ProcessStatus::Sleeping,
            hash: Some(TEST_BINARY_DIGEST.to_string()),
            namespace: no_namespaces(),
            capabilities: vec!["sys_admin".to_string()],
            threads: 1,
            memory_usage_kb: 10240,
        }],
        modules: vec![KernelModuleInfo {
            name: "test_module".to_string(),
            size: 4096,
            ref_count: 1,
            load_address: 0xffffffffc0000000,
            state: ModuleState::Live,
            version: None,
            license: None,
            hash: None,
            signature_valid: None,
            source: ModuleSource::ProcModules,
        }],
        connections: vec![connection(
            "127.0.0.1",
            8080,
            "10.0.0.1",
            443,
            Protocol::Tcp,
            ConnectionState::Established,
            Some(1234),
            5678,
            Some("test_proc"),
        )],
        hooks: Vec::new(),
        threats: Vec::new(),
        memory_hashes: vec![("/test/binary".to_string(), TEST_HASH_DIGEST.to_string())],
        open_files: vec![
            "/tmp/suspicious_file".to_string(),
            "/usr/lib/test.so".to_string(),
            "/proc/1/fd/0".to_string(),
        ],
        env_vars: vec![("PATH".to_string(), "/usr/bin:/bin".to_string())],
    }
}

#[test]
fn test_to_summary() {
    let report = ForensicReport::new(make_test_snapshot());
    let summary = report.to_summary();
    assert!(summary.contains("test-host"));
    assert!(summary.contains("6.1.0-test"));
    assert!(summary.contains("Processes: 1"));
    assert!(summary.contains("Kernel Modules: 1"));
    assert!(summary.contains("Network Connections: 1"));
    assert!(summary.contains("Open Files: 3"));
    assert!(summary.contains("Sleeping: 1"));
    assert!(summary.contains("Tcp: 1"));
}

#[test]
fn summary_lists_larger_counts_first() {
    let mut snapshot = make_test_snapshot();
    snapshot.connections.push(connection("0.0.0.0", 0, "0.0.0.0", 0, Protocol::Udp, ConnectionState::Close, None, 1, None));
    snapshot.connections.push(connection("0.0.0.0", 0, "0.0.0.0", 0, Protocol::Udp, ConnectionState::Close, None, 2, None));
    let summary = ForensicReport::new(snapshot).to_summary();
    let lines: Vec<&str> = summary.lines().collect();
    assert_eq!(lines[0], "Forensic Report: 0f8fad5b-d9cb-469f-a165-70867728950e");
    assert_eq!(lines[10], "  Sleeping: 1");
    assert_eq!(lines[11], "Connections by Protocol:");
    assert_eq!(lines[12], "  Udp: 2");
    assert_eq!(lines[13], "  Tcp: 1");
    assert_eq!(lines[14], "Hooks Detected: 0");
    assert_eq!(lines[16], "Memory Hashes: 1");
    assert_eq!(lines.len(), 17);
}

#[test]
fn test_compute_iocs() {
    let report = ForensicReport::new(make_test_snapshot());
    let iocs = report.compute_iocs();
    assert!(iocs.contains(&"127.0.0.1".to_string()));
    assert!(iocs.contains(&"10.0.0.1".to_string()));
    assert!(iocs.contains(&"/tmp/suspicious_file".to_string()));
}

#[test]
fn test_compute_iocs_excludes_zero_addr() {
    let mut snapshot = make_test_snapshot();
    snapshot.connections.push(connection("0.0.0.0", 0, "0.0.0.0", 0, Protocol::Udp, ConnectionState::Close, None, 9999, None));
    let report = ForensicReport::new(snapshot);
    let iocs = report.compute_iocs();
    assert!(!iocs.contains(&"0.0.0.0".to_string()));
}

#[test]
fn test_compute_iocs_deduplicates() {
    let mut snapshot = make_test_snapshot();
    snapshot.connections.push(connection("10.0.0.1", 80, "127.0.0.1", 9090, Protocol::Tcp, ConnectionState::Established, Some(5678), 1111, None));
    let report = ForensicReport::new(snapshot);
    let iocs = report.compute_iocs();
    let count_10_0_0_1 = iocs.iter().filter(|i| **i == "10.0.0.1").count();
    assert_eq!(count_10_0_0_1, 1);
}

#[test]
fn test_compute_iocs_finds_hash() {
    let snapshot = make_test_snapshot();
    let report = ForensicReport::new(snapshot);
    let iocs = report.compute_iocs();
    assert!(iocs.contains(&TEST_BINARY_DIGEST.to_string()));
}

#[test]
fn compute_iocs_is_sorted_and_complete() {
    let iocs = ForensicReport::new(make_test_snapshot()).compute_iocs();
    let expected = vec![
        "/test/binary:".to_string() + TEST_HASH_DIGEST,
        "/tmp/suspicious_file".to_string(),
        "10.0.0.1".to_string(),
        "127.0.0.1".to_string(),
        TEST_BINARY_DIGEST.to_string(),
    ];
    assert_eq!(iocs, expected);
}

#[test]
fn sorted_unique_sorts_and_dedups() {
    let v = vec!["b".to_string(), "a".to_string(), "b".to_string(), "ab".to_string(), "".to_string()];
    assert_eq!(sorted_unique(&v), vec!["".to_string(), "a".to_string(), "ab".to_string(), "b".to_string()]);
    let files = vec!["/proc/1/fd/0".to_string(), "/dev/null".to_string(), "/dev/null".to_string()];
    assert_eq!(open_file_list(&files), vec!["/dev/null".to_string(), "/proc/1/fd/0".to_string()]);
}

#[test]
fn status_text_fields() {
    let text = "Name:\tbash\nState:\tS (sleeping)\nPPid:\t42\nUid:\t1000\t1000\t1000\t1000\nGid:\t100\t100\t100\t100\nThreads:\t3\nVmRSS:\t  5120 kB\nCapEff:\t0000000000200000\n";
    let f = parse_status(text);
    assert_eq!(f.name, "bash");
    assert_eq!(f.state, 'S');
    assert_eq!(f.ppid, 42);
    assert_eq!(f.uid, 1000);
    assert_eq!(f.gid, 100);
    assert_eq!(f.threads, 3);
    assert_eq!(f.vm_rss_kb, 5120);
    assert_eq!(f.cap_hex, "0000000000200000");
    let empty = parse_status("");
    assert_eq!(empty.name, "");
    assert_eq!(empty.state, ' ');
    assert_eq!(empty.ppid, 0);
    let bad = parse_status("PPid:\tx\nName:\ta\nName:\tb\r\n");
    assert_eq!(bad.ppid, 0);
    assert_eq!(bad.name, "b");
}

#[test]
fn process_assembly_decodes_state_and_capabilities() {
    let f = parse_status("Name:\tinit\nState:\tR (running)\nCapEff:\t0000000000200001\n");
    let p = assemble_process(1, f, 7, vec!["/sbin/init".to_string()], "/sbin/init".to_string(), "root".to_string(), no_namespaces());
    assert_eq!(p.status, ProcessStatus::Running);
    assert_eq!(p.capabilities, vec!["chown".to_string(), "sys_admin".to_string()]);
    assert_eq!(p.name, "init");
    assert_eq!(p.hash, None);
    let q = assemble_process(2, parse_status("CapEff:\tzz\n"), 0, Vec::new(), String::new(), String::new(), no_namespaces());
    assert!(q.capabilities.is_empty());
    assert_eq!(q.status, ProcessStatus::Unknown);
}

#[test]
fn capability_bits_decode_in_order() {
    assert_eq!(decode_capabilities(0), Vec::<String>::new());
    assert_eq!(decode_capabilities(1 << 39 | 1 << 40 | 1), vec!["chown".to_string(), "bpf".to_string(), "checkpoint_restore".to_string()]);
    assert_eq!(decode_capabilities(1 << 50), Vec::<String>::new());
    assert_eq!(decode_capabilities(u64::MAX).len(), 41);
}

#[test]
fn state_letters() {
    assert_eq!(process_status('R'), ProcessStatus::Running);
    assert_eq!(process_status('S'), ProcessStatus::Sleeping);
    assert_eq!(process_status('T'), ProcessStatus::Stopped);
    assert_eq!(process_status('Z'), ProcessStatus::Zombie);
    assert_eq!(process_status('D'), ProcessStatus::Dead);
    assert_eq!(process_status('X'), ProcessStatus::Dead);
    assert_eq!(process_status('I'), ProcessStatus::Unknown);
}

#[test]
fn stat_start_ticks() {
    let stat = "1 (systemd) S 0 1 1 0 -1 4194560 1 2 3 4 5 6 7 8 20 0 1 0 123456 1000 200";
    assert_eq!(parse_stat_start_ticks(stat), Some(123456));
    assert_eq!(parse_stat_start_ticks("1 (a b) c) S 0 1 1 0 -1 0 0 0 0 0 0 0 0 0 0 0 0 0 99"), Some(99));
    assert_eq!(parse_stat_start_ticks("1 (x) S 2"), Some(0));
    assert_eq!(parse_stat_start_ticks("no parens"), None);
    assert_eq!(parse_stat_start_ticks("1 (x)"), None);
    assert_eq!(parse_stat_start_ticks("1 (x) "), None);
}

#[test]
fn cmdline_and_environ() {
    assert_eq!(parse_cmdline("/bin/sh\0-c\0\0echo hi\0"), vec!["/bin/sh".to_string(), "-c".to_string(), "echo hi".to_string()]);
    assert!(parse_cmdline("").is_empty());
    let env = parse_environ("A=1\0B=x=y\0NOEQ\0A=2\0");
    assert_eq!(env, vec![("A".to_string(), "2".to_string()), ("B".to_string(), "x=y".to_string())]);
}

#[test]
fn descriptor_and_namespace_links() {
    assert_eq!(socket_inode("socket:[1234]"), Some(1234));
    assert_eq!(socket_inode("pipe:[1234]"), None);
    assert_eq!(socket_inode("socket:[]"), None);
    assert_eq!(ns_inode("net:[4026531840]"), Some(4026531840));
    assert_eq!(ns_inode("net"), None);
    let map = build_inode_map(&vec![
        (10, "socket:[5]".to_string()),
        (11, "/dev/null".to_string()),
        (12, "socket:[5]".to_string()),
        (13, "socket:[6]".to_string()),
    ]);
    assert_eq!(lookup_inode(&map, 5), Some(12));
    assert_eq!(lookup_inode(&map, 6), Some(13));
    assert_eq!(lookup_inode(&map, 7), None);
}

#[test]
fn passwd_lookup() {
    let passwd = "root:x:0:0:root:/root:/bin/bash\nalice:x:1000:1000::/home/alice:/bin/sh\n";
    assert_eq!(lookup_uid(Some(passwd), 1000), "alice");
    assert_eq!(lookup_uid(Some(passwd), 0), "root");
    assert_eq!(lookup_uid(Some(passwd), 7), "uid:7");
    assert_eq!(lookup_uid(None, 0), "uid:0");
}

#[test]
fn module_lines() {
    let m = parse_module_line("nf_tables 286720 1 nft_ct, Live 0xffffffffc0a00000").unwrap();
    assert_eq!(m.name, "nf_tables");
    assert_eq!(m.size, 286720);
    assert_eq!(m.ref_count, 1);
    assert_eq!(m.load_address, 0);
    assert_eq!(m.state, ModuleState::Live);
    let g = parse_module_line("x y z 0x0x10 Going 0xff").unwrap();
    assert_eq!(g.size, 0);
    assert_eq!(g.load_address, 0x10);
    assert_eq!(g.state, ModuleState::Going);
    assert!(parse_module_line("too few fields").is_none());
}

#[test]
fn ipv6_and_ports() {
    assert_eq!(parse_hex_ipv6("00000000000000000000000001000000").as_deref(), Some("0000:0000:0000:0000:0000:0000:0000:0001"));
    assert_eq!(parse_hex_ipv6("0000000000000000FFFF00000100007F").as_deref(), Some("0000:0000:0000:0000:0000:ffff:7f00:0001"));
    assert_eq!(parse_hex_ipv6("0000"), None);
    let a: Vec<char> = "0100007F:1F90".chars().collect();
    assert_eq!(parse_addr_port(&a), Some(("127.0.0.1".to_string(), 8080)));
    let b: Vec<char> = "0100007F".chars().collect();
    assert_eq!(parse_addr_port(&b), None);
    let c: Vec<char> = "0100:01BB".chars().collect();
    assert_eq!(parse_addr_port(&c), None);
}

#[test]
fn net_lines() {
    let map = build_inode_map(&vec![(321, "socket:[5678]".to_string())]);
    let line = "   0: 0100007F:1F90 0100000A:01BB 01 00000000:00000000 00:00000000 00000000  1000        0 5678 1 0000000000000000 100 0 0 10 0";
    let c = parse_net_line(line, Protocol::Tcp, &map).unwrap();
    assert_eq!(c.local_addr.ip, "127.0.0.1");
    assert_eq!(c.local_addr.port, 8080);
    assert_eq!(c.remote_addr.as_ref().unwrap().ip, "10.0.0.1");
    assert_eq!(c.remote_addr.as_ref().unwrap().port, 443);
    assert_eq!(c.state, ConnectionState::Established);
    assert_eq!(c.uid, 1000);
    assert_eq!(c.inode, 5678);
    assert_eq!(c.pid, Some(321));
    assert!(c.process_name.is_none());
    assert!(parse_net_line("  sl  local_address rem_address   st", Protocol::Tcp, &map).is_none());
}

#[test]
fn system_facts_and_snapshot() {
    let facts = system_info(Some("Linux version 6.1.0\n"), Some("host-a\n"), Some("123.45 678.9\n"));
    assert_eq!(facts, vec![
        ("kernel_version".to_string(), "Linux version 6.1.0".to_string()),
        ("hostname".to_string(), "host-a".to_string()),
        ("uptime".to_string(), "123.45s".to_string()),
    ]);
    let s = snapshot_from("id".to_string(), "t".to_string(), &facts, Vec::new(), Vec::new(), Vec::new(), Vec::new(), Vec::new());
    assert_eq!(s.hostname, "host-a");
    assert_eq!(s.kernel_version, "Linux version 6.1.0");
    let bare = snapshot_from("id".to_string(), "t".to_string(), &system_info(None, None, None), Vec::new(), Vec::new(), Vec::new(), Vec::new(), Vec::new());
    assert_eq!(bare.hostname, "");
}

#[test]
fn report_hands_back_its_snapshot() {
    let report = ForensicReport::new(make_test_snapshot());
    let s = report.get_snapshot();
    assert_eq!(s.hostname, "test-host");
    assert_eq!(s.processes.len(), 1);
}
