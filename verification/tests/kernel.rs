use sentinelx::hardening::{
    check_dmesg_restrict, check_kptr_restrict, check_modules_disabled, check_secure_boot,
    SecureBootRead,
};
use sentinelx::providers::{
    IntegrityDiscoveryProvider, IntegrityMetadataCollector, KernelDiscoveryProvider,
    KernelMetadataCollector, MemoryDiscoveryProvider, MemoryMetadataCollector,
};
use sentinelx::symbols::{parse_hex_u64, KernelSymbol, KernelSymbolTable};

fn sym(name: &str, address: u64) -> KernelSymbol {
    KernelSymbol { name: name.to_string(), address, size: 100, module: None, is_function: true }
}

#[test]
fn empty_table() {
    let table = KernelSymbolTable::new();
    assert_eq!(table.count(), 0);
    assert!(table.get_symbol("nonexistent").is_none());
}

#[test]
fn symbol_diff() {
    let mut t1 = KernelSymbolTable::new();
    t1.insert(sym("sys_read", 0xffffffff81000000));
    let mut t2 = KernelSymbolTable::new();
    t2.insert(sym("sys_write", 0xffffffff81000100));

    let diff = t1.diff(&t2);
    assert!(diff.has_changes());
    assert!(diff.added.contains(&"sys_write".to_string()));
    assert!(diff.removed.contains(&"sys_read".to_string()));
}

#[test]
fn moved_symbols_are_modified() {
    let mut t1 = KernelSymbolTable::new();
    t1.insert(sym("a", 1));
    t1.insert(sym("b", 2));
    let mut t2 = KernelSymbolTable::new();
    t2.insert(sym("a", 1));
    t2.insert(sym("b", 3));
    let diff = t1.diff(&t2);
    assert!(diff.added.is_empty());
    assert!(diff.removed.is_empty());
    assert_eq!(diff.modified, vec!["b".to_string()]);
    assert!(!t1.diff(&t1).has_changes());
}

#[test]
fn kallsyms_text_is_parsed() {
    let content = "ffffffff81000000 T _text\n\
                   ffffffff81000100 t do_one_initcall\n\
                   ffffffffc0000000 t hidden_fn\t[rootkit]\n\
                   bad line\n\
                   ffffffff81000200 D some_data\n\
                   ffffffff81000300 T _text\n";
    let table = KernelSymbolTable::parse_kallsyms(content);
    assert_eq!(table.count(), 4);
    let text = table.get_symbol("_text").unwrap();
    assert_eq!(text.address, 0xffffffff81000300);
    assert!(text.is_function);
    let hidden = table.get_symbol("hidden_fn").unwrap();
    assert_eq!(hidden.module.as_deref(), Some("rootkit"));
    assert!(!table.get_symbol("some_data").unwrap().is_function);
    assert_eq!(table.get_all()[0].name, "_text");
}

#[test]
fn unparsable_address_reads_as_zero() {
    let table = KernelSymbolTable::parse_kallsyms("zzzz T f\n");
    assert_eq!(table.get_symbol("f").unwrap().address, 0);
}

#[test]
fn hex_numbers() {
    let v = |s: &str| s.chars().collect::<Vec<char>>();
    assert_eq!(parse_hex_u64(&v("ff")), Some(255));
    assert_eq!(parse_hex_u64(&v("+A")), Some(10));
    assert_eq!(parse_hex_u64(&v("ffffffffffffffff")), Some(u64::MAX));
    assert_eq!(parse_hex_u64(&v("10000000000000000")), None);
    assert_eq!(parse_hex_u64(&v("")), None);
    assert_eq!(parse_hex_u64(&v("xyz")), None);
}

#[test]
fn hardening_checks() {
    assert!(check_kptr_restrict(Some("1")).is_none());
    assert!(check_kptr_restrict(Some("2")).is_none());
    let c = check_kptr_restrict(Some("0")).unwrap();
    assert_eq!((c.name.as_str(), c.expected.as_str(), c.actual.as_str(), c.severity.as_str()),
        ("kptr_restrict", "1 or 2", "0", "Medium"));
    assert!(check_kptr_restrict(None).is_none());
    assert!(check_dmesg_restrict(Some("1")).is_none());
    assert_eq!(check_dmesg_restrict(Some("0")).unwrap().severity, "Low");
    assert!(check_modules_disabled(Some("1")).is_none());
    assert_eq!(check_modules_disabled(Some("0")).unwrap().severity, "Info");
}

#[test]
fn secure_boot_checks() {
    assert!(check_secure_boot(&SecureBootRead::NoEfi).is_none());
    assert_eq!(check_secure_boot(&SecureBootRead::Unreadable).unwrap().actual, "unreadable");
    assert!(check_secure_boot(&SecureBootRead::Bytes(vec![6, 0, 0, 0, 1])).is_none());
    assert_eq!(check_secure_boot(&SecureBootRead::Bytes(vec![6, 0, 0, 0, 0])).unwrap().actual, "disabled");
    assert!(check_secure_boot(&SecureBootRead::Bytes(vec![])).is_none());
}

#[test]
fn provider_names() {
    assert_eq!(KernelDiscoveryProvider::new().name(), "kernel_discovery");
    assert_eq!(IntegrityDiscoveryProvider::new().name(), "integrity_discovery");
    assert_eq!(MemoryDiscoveryProvider::new().name(), "memory_discovery");
    assert_eq!(KernelMetadataCollector::new().name(), "kernel_metadata");
    assert_eq!(IntegrityMetadataCollector::new().name(), "integrity_metadata");
    assert_eq!(MemoryMetadataCollector::new().name(), "memory_metadata");
    assert!(MemoryDiscoveryProvider::new().description().contains("kallsyms"));
    assert_eq!(KernelDiscoveryProvider::default().supported_object_types().len(), 1);
}

#[test]
fn diff_names_each_change_once() {
    let mut t1 = KernelSymbolTable::new();
    t1.insert(sym("keep", 1));
    t1.insert(sym("move", 2));
    t1.insert(sym("gone", 3));
    let mut t2 = KernelSymbolTable::new();
    t2.insert(sym("new", 9));
    t2.insert(sym("move", 5));
    t2.insert(sym("keep", 1));
    let diff = t1.diff(&t2);
    assert_eq!(diff.added, vec!["new".to_string()]);
    assert_eq!(diff.removed, vec!["gone".to_string()]);
    assert_eq!(diff.modified, vec!["move".to_string()]);
    assert!(!t2.diff(&t2).has_changes());
}
