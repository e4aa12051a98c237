use sentinelx::forensics::{
    is_suspicious_module, is_suspicious_path, parse_conn_state, parse_hex_ip, ConnectionState,
};

#[test]
fn test_hex_ip_parsing() {
    assert_eq!(parse_hex_ip("00000000").as_deref(), Some("0.0.0.0"));
    assert_eq!(parse_hex_ip("FFFFFFFF").as_deref(), Some("255.255.255.255"));
}

#[test]
fn hex_ip_is_little_endian() {
    assert_eq!(parse_hex_ip("0100007F").as_deref(), Some("127.0.0.1"));
    assert_eq!(parse_hex_ip("100000000"), None);
    assert_eq!(parse_hex_ip("zz"), None);
    assert_eq!(parse_hex_ip(""), None);
}

#[test]
fn test_connection_state_parsing() {
    assert_eq!(parse_conn_state("01"), ConnectionState::Established);
    assert_eq!(parse_conn_state("0A"), ConnectionState::Listen);
    assert_eq!(parse_conn_state("06"), ConnectionState::TimeWait);
    assert_eq!(parse_conn_state("FF"), ConnectionState::Unknown);
}

#[test]
fn test_is_suspicious_path() {
    assert!(is_suspicious_path("/tmp/malware"));
    assert!(is_suspicious_path("/dev/shm/payload"));
    assert!(is_suspicious_path("/var/tmp/.hidden"));
    assert!(is_suspicious_path("/usr/lib/../bin/evil"));
    assert!(!is_suspicious_path("/usr/lib/test.so"));
    assert!(!is_suspicious_path("/home/user/file.txt"));
}

#[test]
fn suspicious_module_names() {
    assert!(is_suspicious_module(".hidden"));
    assert!(is_suspicious_module("my_rootkit"));
    assert!(is_suspicious_module("hide_proc"));
    assert!(!is_suspicious_module("ext4"));
}
