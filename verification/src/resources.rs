use vstd::prelude::*;
use crate::hardening::{check_dmesg_restrict, check_kptr_restrict, check_modules_disabled, check_secure_boot,
    finding, HardeningCheck, KernelObjectType, SecureBootRead};
use crate::hooks::HookInfo;
use crate::integrity::{critical_file_list, critical_files};
use crate::object::{object_id, MetadataModel, ObjectMetadata, ObjectType, SentinelObject};
use crate::text::{decimal, digit_char, hex_text, owned, push_char, push_decimal, push_hex, push_str, str_eq};
use crate::threat::strings_view;
use crate::value::{lookup, store, Value, ValueModel};

verus! {

/// The six decimal digits of a number below a million, zero-padded.
pub open spec fn six_digits(m: nat) -> Seq<char> {
    seq![digit_char((m / 100000) % 10), digit_char((m / 10000) % 10), digit_char((m / 1000) % 10),
        digit_char((m / 100) % 10), digit_char((m / 10) % 10), digit_char(m % 10)]
}

/// The digits without trailing zeros, keeping at least one.
pub open spec fn strip_zeros(s: Seq<char>) -> Seq<char>
    decreases s.len(),
{
    if s.len() > 1 && s.last() == '0' { strip_zeros(s.drop_last()) } else { s }
}

/// The decimal text of a number of millionths as a fraction: the whole
/// part, a point, and the fractional digits without trailing zeros
/// (`900000` is `0.9`, `1000000` is `1.0`).
pub open spec fn millionths_text(m: nat) -> Seq<char> {
    decimal(m / 1_000_000) + "."@ + strip_zeros(six_digits(m % 1_000_000))
}

fn digit_at(m: u32, div: u32) -> (c: char)
    requires
        div > 0,
    ensures
        c == digit_char(((m / div) % 10) as nat),
{
    let d = (m / div) % 10;
    let mut s = String::new();
    push_decimal(&mut s, d as u64);
    let v = crate::text::chars_of(s.as_str());
    proof {
        reveal_with_fuel(decimal, 2);
    }
    assert(v@ == decimal(d as nat));
    v[0]
}

/// The decimal text of a number of millionths as a fraction.
pub fn millionths_string(m: u32) -> (s: String)
    ensures
        s@ == millionths_text(m as nat),
{
    let mut s = String::new();
    push_decimal(&mut s, (m / 1_000_000) as u64);
    push_char(&mut s, '.');
    proof {
        reveal_strlit(".");
    }
    assert(s@ =~= decimal((m / 1_000_000) as nat) + "."@);
    let f = m % 1_000_000;
    let mut digits: Vec<char> = Vec::new();
    digits.push(digit_at(f, 100000));
    digits.push(digit_at(f, 10000));
    digits.push(digit_at(f, 1000));
    digits.push(digit_at(f, 100));
    digits.push(digit_at(f, 10));
    digits.push(digit_at(f, 1));
    assert(digits@ =~= six_digits(f as nat));
    let mut n: usize = 6;
    assert(digits@.take(6) =~= digits@);
    while n > 1 && digits[n - 1] == '0'
        invariant
            1 <= n <= 6,
            digits@.len() == 6,
            strip_zeros(six_digits(f as nat)) == strip_zeros(digits@.take(n as int)),
        decreases n,
    {
        assert(digits@.take(n as int).drop_last() =~= digits@.take(n - 1));
        n -= 1;
    }
    let mut i: usize = 0;
    let ghost start = s@;
    while i < n
        invariant
            i <= n <= 6,
            digits@.len() == 6,
            s@ == start + digits@.take(i as int),
        decreases n - i,
    {
        push_char(&mut s, digits[i]);
        assert(digits@.take(i as int).push(digits@[i as int]) =~= digits@.take(i + 1));
        i += 1;
    }
    assert(strip_zeros(digits@.take(n as int)) == digits@.take(n as int));
    assert(s@ =~= decimal((m / 1_000_000) as nat) + "."@ + strip_zeros(six_digits(f as nat)));
    s
}

/// The lower-case form of a text (`str::to_lowercase`).
pub uninterp spec fn lowercase(s: Seq<char>) -> Seq<char>;

/// The text with ASCII capitals made small and every other character kept.
pub open spec fn ascii_lower(s: Seq<char>) -> Seq<char> {
    Seq::new(s.len(), |i: int| if 'A' <= s[i] && s[i] <= 'Z' { ((s[i] as u32) + 32) as char } else { s[i] })
}

/// Whether every character is ASCII.
pub open spec fn ascii_only(s: Seq<char>) -> bool {
    forall|i: int| 0 <= i < s.len() ==> (s[i] as u32) < 128
}

/// `str::to_lowercase`: its result is named `lowercase`; its documentation
/// gives that ASCII letters are mapped as ASCII.
#[verifier::external_body]
fn to_lower(s: &str) -> (r: String)
    ensures
        r@ == lowercase(s@),
        ascii_only(s@) ==> r@ == ascii_lower(s@),
{
    s.to_lowercase()
}

/// The text with every `/` replaced by `_`.
pub open spec fn slashes_to_underscores(s: Seq<char>) -> Seq<char> {
    Seq::new(s.len(), |i: int| if s[i] == '/' { '_' } else { s[i] })
}

fn replace_slashes(s: &str) -> (r: String)
    ensures
        r@ == slashes_to_underscores(s@),
{
    let v = crate::text::chars_of(s);
    let mut r = String::new();
    let mut i: usize = 0;
    while i < v.len()
        invariant
            i <= v@.len(),
            v@ == s@,
            r@ == slashes_to_underscores(s@).take(i as int),
        decreases v.len() - i,
    {
        push_char(&mut r, if v[i] == '/' { '_' } else { v[i] });
        assert(slashes_to_underscores(s@).take(i as int).push(slashes_to_underscores(s@)[i as int])
            =~= slashes_to_underscores(s@).take(i + 1));
        i += 1;
    }
    assert(slashes_to_underscores(s@).take(v@.len() as int) =~= slashes_to_underscores(s@));
    r
}

/// A finding about the kernel, as kernel discovery reports it.
/// `risk_score` is in millionths; `hash` is a hexadecimal digest.
#[derive(Debug)]
pub struct KernelObject {
    pub name: String,
    pub description: String,
    pub severity: String,
    pub obj_type: KernelObjectType,
    pub hash: Option<String>,
    pub risk_score: u32,
}

/// The variant name of a kernel object type.
pub open spec fn kernel_type_name(t: KernelObjectType) -> Seq<char> {
    match t {
        KernelObjectType::HookDetection => "HookDetection"@,
        KernelObjectType::IntegrityViolation => "IntegrityViolation"@,
        KernelObjectType::HardeningCheck => "HardeningCheck"@,
    }
}

fn kernel_type_str(t: KernelObjectType) -> (s: &'static str)
    ensures
        s@ == kernel_type_name(t),
{
    match t {
        KernelObjectType::HookDetection => "HookDetection",
        KernelObjectType::IntegrityViolation => "IntegrityViolation",
        KernelObjectType::HardeningCheck => "HardeningCheck",
    }
}

/// The risk a hardening finding of the given severity carries, in
/// millionths.
pub open spec fn hardening_risk(severity: Seq<char>) -> u32 {
    if severity == "Critical"@ {
        900_000
    } else if severity == "High"@ {
        800_000
    } else if severity == "Medium"@ {
        600_000
    } else {
        300_000
    }
}

impl KernelObject {
    /// The finding of a hook: critical, named after its kind.
    pub fn from_hook(hook: &HookInfo) -> (o: KernelObject)
        ensures
            o.name@ == hook.hook_type.variant_name() + "_hook"@,
            o.description@ == "Detected "@ + hook.hook_type.variant_name() + " hook at 0x"@ + hex_text(hook.address as nat),
            o.severity@ == "Critical"@,
            o.obj_type == KernelObjectType::HookDetection,
            o.hash is None,
            o.risk_score == 900_000,
    {
        let t = hook.hook_type.variant_str();
        let mut name = owned(t);
        push_str(&mut name, "_hook");
        let mut description = owned("Detected ");
        push_str(&mut description, t);
        push_str(&mut description, " hook at 0x");
        push_hex(&mut description, hook.address);
        KernelObject {
            name,
            description,
            severity: owned("Critical"),
            obj_type: KernelObjectType::HookDetection,
            hash: None,
            risk_score: 900_000,
        }
    }

    /// The finding of a modified kernel resource: critical, named after
    /// its path, carrying the current digest.
    pub fn from_integrity_violation(path: &str, baseline_hash: &str, current_hash: &str) -> (o: KernelObject)
        ensures
            o.name@ == "integrity_"@ + slashes_to_underscores(path@),
            o.description@ == "Kernel integrity violation: "@ + path@,
            o.severity@ == "Critical"@,
            o.obj_type == KernelObjectType::IntegrityViolation,
            o.hash matches Some(h) && h@ == current_hash@,
            o.risk_score == 950_000,
    {
        let mut name = owned("integrity_");
        let p = replace_slashes(path);
        push_str(&mut name, p.as_str());
        let mut description = owned("Kernel integrity violation: ");
        push_str(&mut description, path);
        KernelObject {
            name,
            description,
            severity: owned("Critical"),
            obj_type: KernelObjectType::IntegrityViolation,
            hash: Some(owned(current_hash)),
            risk_score: 950_000,
        }
    }

    /// The finding of a hardening setting that is not as it should be.
    pub fn from_hardening_check(name: &str, expected: &str, actual: &str, severity: &str) -> (o: KernelObject)
        ensures
            o.name@ == "hardening_"@ + name@,
            o.description@ == "Kernel hardening check "@ + name@ + ": expected "@ + expected@ + ", got "@ + actual@,
            o.severity@ == severity@,
            o.obj_type == KernelObjectType::HardeningCheck,
            o.hash is None,
            o.risk_score == hardening_risk(severity@),
    {
        let mut n = owned("hardening_");
        push_str(&mut n, name);
        let mut description = owned("Kernel hardening check ");
        push_str(&mut description, name);
        push_str(&mut description, ": expected ");
        push_str(&mut description, expected);
        push_str(&mut description, ", got ");
        push_str(&mut description, actual);
        let risk_score: u32 = if str_eq(severity, "Critical") {
            900_000
        } else if str_eq(severity, "High") {
            800_000
        } else if str_eq(severity, "Medium") {
            600_000
        } else {
            300_000
        };
        KernelObject {
            name: n,
            description,
            severity: owned(severity),
            obj_type: KernelObjectType::HardeningCheck,
            hash: None,
            risk_score,
        }
    }

    /// The object the finding becomes: a memory region named after it,
    /// with its name, description, severity, kind and risk as properties,
    /// its digest (if any) as `kernel_hash`, and its severity in lower
    /// case as a tag.
    pub fn to_sentinel_object(&self, source: &str) -> (o: SentinelObject)
        ensures
            o.id@ == object_id(ObjectType::MemoryRegion, self.name@),
            o.object_type == ObjectType::MemoryRegion,
            o.source@ == source@,
            o.metadata@ == kernel_metadata(*self),
            o.relationships@.len() == 0,
            o.assessments@.len() == 0,
            o.evidence_refs@.len() == 0,
    {
        let m0 = ObjectMetadata::new();
        assert(m0@.properties =~= Seq::<(Seq<char>, ValueModel)>::empty());
        assert(m0@.hashes =~= Seq::<(Seq<char>, ValueModel)>::empty());
        assert(m0@.tags =~= Seq::<Seq<char>>::empty());
        let mut metadata = m0
            .with_property("name", Value::String(self.name.clone()))
            .with_property("description", Value::String(self.description.clone()))
            .with_property("severity", Value::String(self.severity.clone()))
            .with_property("kernel_obj_type", Value::String(owned(kernel_type_str(self.obj_type))))
            .with_property("risk_score", Value::Json(millionths_string(self.risk_score)));
        match &self.hash {
            Some(h) => {
                metadata.hashes.insert(owned("kernel_hash"), Value::String(h.clone()));
            },
            None => {},
        }
        let metadata = metadata.with_tag(to_lower(self.severity.as_str()).as_str());
        assert(metadata@.tags =~= seq![lowercase(self.severity@)]);
        assert(metadata@.hashes =~= kernel_metadata(*self).hashes);
        assert(metadata@.properties =~= kernel_properties(*self));
        SentinelObject::new(ObjectType::MemoryRegion, source, self.name.as_str()).with_metadata(metadata)
    }
}

/// The properties of a kernel finding, in the order set.
pub open spec fn kernel_properties(k: KernelObject) -> Seq<(Seq<char>, ValueModel)> {
    let p1 = store(Seq::empty(), "name"@, ValueModel::Text(k.name@));
    let p2 = store(p1, "description"@, ValueModel::Text(k.description@));
    let p3 = store(p2, "severity"@, ValueModel::Text(k.severity@));
    let p4 = store(p3, "kernel_obj_type"@, ValueModel::Text(kernel_type_name(k.obj_type)));
    store(p4, "risk_score"@, ValueModel::Json(millionths_text(k.risk_score as nat)))
}

/// What is known of the object a kernel finding becomes.
pub open spec fn kernel_metadata(k: KernelObject) -> MetadataModel {
    MetadataModel {
        properties: kernel_properties(k),
        ownership: None,
        permissions: None,
        hashes: match k.hash {
            Some(h) => seq![("kernel_hash"@, ValueModel::Text(h@))],
            None => Seq::empty(),
        },
        package_info: None,
        tags: seq![lowercase(k.severity@)],
    }
}

/// A hardening finding as its parts: name, expected value, actual value
/// and severity.
pub type Finding4 = (Seq<char>, Seq<char>, Seq<char>, Seq<char>);

/// The text of an optional string slice.
pub open spec fn opt_text(v: Option<&str>) -> Option<Seq<char>> {
    match v {
        Some(s) => Some(s@),
        None => None,
    }
}

/// The finding on `kernel.kptr_restrict` with the given value.
pub open spec fn kptr_finding(v: Option<Seq<char>>) -> Option<Finding4> {
    match v {
        None => None,
        Some(v) => if v == "1"@ || v == "2"@ { None } else { Some(("kptr_restrict"@, "1 or 2"@, v, "Medium"@)) },
    }
}

/// The finding on `kernel.dmesg_restrict` with the given value.
pub open spec fn dmesg_finding(v: Option<Seq<char>>) -> Option<Finding4> {
    match v {
        None => None,
        Some(v) => if v == "1"@ { None } else { Some(("dmesg_restrict"@, "1"@, v, "Low"@)) },
    }
}

/// The finding on `kernel.modules_disabled` with the given value.
pub open spec fn modules_finding(v: Option<Seq<char>>) -> Option<Finding4> {
    match v {
        None => None,
        Some(v) => if v == "1"@ { None } else { Some(("modules_disabled"@, "1 (modules loading disabled)"@, v, "Info"@)) },
    }
}

/// The finding on Secure Boot given what reading its variable gave.
pub open spec fn secure_boot_finding(read: SecureBootRead) -> Option<Finding4> {
    match read {
        SecureBootRead::NoEfi => None,
        SecureBootRead::Unreadable => Some(("secure_boot"@, "present"@, "unreadable"@, "Low"@)),
        SecureBootRead::Bytes(b) => if b@.len() > 0 && b@.last() != 1 {
            Some(("secure_boot"@, "enabled"@, "disabled"@, "Medium"@))
        } else {
            None
        },
    }
}

/// The present findings among the first `n`, in order.
pub open spec fn somes(s: Seq<Option<Finding4>>, n: int) -> Seq<Finding4>
    decreases n,
{
    if n <= 0 {
        Seq::empty()
    } else {
        match s[n - 1] {
            Some(f) => somes(s, n - 1).push(f),
            None => somes(s, n - 1),
        }
    }
}

/// The hardening checks that fail, in the order kptr_restrict,
/// dmesg_restrict, modules_disabled, Secure Boot.
pub open spec fn failed_checks(kptr: Option<Seq<char>>, dmesg: Option<Seq<char>>, modules: Option<Seq<char>>,
    secure_boot: SecureBootRead) -> Seq<Finding4> {
    somes(seq![kptr_finding(kptr), dmesg_finding(dmesg), modules_finding(modules), secure_boot_finding(secure_boot)], 4)
}

/// What the object of a failed hardening check records.
pub open spec fn discovered_check(o: SentinelObject, c: Finding4) -> bool {
    &&& o.id@ == object_id(ObjectType::MemoryRegion, "hardening_"@ + c.0)
    &&& o.source@ == "kernel_discovery"@
    &&& o.object_type == ObjectType::MemoryRegion
    &&& lookup(o.metadata@.properties, "description"@)
        == Some(ValueModel::Text("Kernel hardening check "@ + c.0 + ": expected "@ + c.1 + ", got "@ + c.2))
    &&& lookup(o.metadata@.properties, "severity"@) == Some(ValueModel::Text(c.3))
    &&& lookup(o.metadata@.properties, "risk_score"@) == Some(ValueModel::Json(millionths_text(hardening_risk(c.3) as nat)))
}

/// The objects that kernel discovery finds, given the trimmed values of
/// `kernel.kptr_restrict`, `kernel.dmesg_restrict` and
/// `kernel.modules_disabled` (`None` when unreadable) and what reading
/// the Secure Boot variable gave: one per failed hardening check, in that
/// order.
pub fn kernel_discovery_objects(
    kptr: Option<&str>,
    dmesg: Option<&str>,
    modules: Option<&str>,
    secure_boot: &SecureBootRead,
) -> (r: Vec<SentinelObject>)
    ensures
        r@.len() == failed_checks(opt_text(kptr), opt_text(dmesg), opt_text(modules), *secure_boot).len(),
        forall|k: int| 0 <= k < r@.len() ==> discovered_check(#[trigger] r@[k],
            failed_checks(opt_text(kptr), opt_text(dmesg), opt_text(modules), *secure_boot)[k]),
{
    let checks: Vec<Option<HardeningCheck>> = vec![
        check_kptr_restrict(kptr),
        check_dmesg_restrict(dmesg),
        check_modules_disabled(modules),
        check_secure_boot(secure_boot),
    ];
    let ghost wanted = seq![kptr_finding(opt_text(kptr)), dmesg_finding(opt_text(dmesg)),
        modules_finding(opt_text(modules)), secure_boot_finding(*secure_boot)];
    assert forall|q: int| 0 <= q < 4 implies (match #[trigger] checks@[q] {
        Some(c) => wanted[q] == Some(finding(c)),
        None => wanted[q] is None,
    }) by {
        reveal_strlit("1");
        reveal_strlit("2");
    }
    let mut r: Vec<SentinelObject> = Vec::new();
    let mut i: usize = 0;
    while i < checks.len()
        invariant
            i <= checks@.len() == 4,
            wanted.len() == 4,
            forall|q: int| 0 <= q < 4 ==> (match #[trigger] checks@[q] {
                Some(c) => wanted[q] == Some(finding(c)),
                None => wanted[q] is None,
            }),
            r@.len() == somes(wanted, i as int).len(),
            forall|k: int| 0 <= k < r@.len() ==> discovered_check(#[trigger] r@[k], somes(wanted, i as int)[k]),
        decreases checks.len() - i,
    {
        match &checks[i] {
            Some(c) => {
                let o = KernelObject::from_hardening_check(c.name.as_str(), c.expected.as_str(), c.actual.as_str(),
                    c.severity.as_str());
                let s = o.to_sentinel_object("kernel_discovery");
                proof {
                    lemma_kernel_properties(o);
                }
                r.push(s);
            },
            None => {},
        }
        i += 1;
    }
    assert(failed_checks(opt_text(kptr), opt_text(dmesg), opt_text(modules), *secure_boot) == somes(wanted, 4));
    r
}

/// What lookups find among the properties of a kernel finding.
pub proof fn lemma_kernel_properties(k: KernelObject)
    ensures
        lookup(kernel_properties(k), "name"@) == Some(ValueModel::Text(k.name@)),
        lookup(kernel_properties(k), "description"@) == Some(ValueModel::Text(k.description@)),
        lookup(kernel_properties(k), "severity"@) == Some(ValueModel::Text(k.severity@)),
        lookup(kernel_properties(k), "kernel_obj_type"@) == Some(ValueModel::Text(kernel_type_name(k.obj_type))),
        lookup(kernel_properties(k), "risk_score"@) == Some(ValueModel::Json(millionths_text(k.risk_score as nat))),
{
    reveal_strlit("name");
    reveal_strlit("description");
    reveal_strlit("severity");
    reveal_strlit("kernel_obj_type");
    reveal_strlit("risk_score");
    assert("name"@.len() == 4 && "description"@.len() == 11 && "severity"@.len() == 8
        && "kernel_obj_type"@.len() == 15 && "risk_score"@.len() == 10);
    assert("name"@ != "description"@ && "name"@ != "severity"@ && "name"@ != "kernel_obj_type"@
        && "name"@ != "risk_score"@ && "description"@ != "severity"@ && "description"@ != "kernel_obj_type"@
        && "description"@ != "risk_score"@);
    let p1 = store(Seq::empty(), "name"@, ValueModel::Text(k.name@));
    let p2 = store(p1, "description"@, ValueModel::Text(k.description@));
    let p3 = store(p2, "severity"@, ValueModel::Text(k.severity@));
    let p4 = store(p3, "kernel_obj_type"@, ValueModel::Text(kernel_type_name(k.obj_type)));
    crate::value::lemma_lookup_store(Seq::empty(), "name"@, ValueModel::Text(k.name@), "name"@);
    crate::value::lemma_lookup_store(p1, "description"@, ValueModel::Text(k.description@), "name"@);
    crate::value::lemma_lookup_store(p1, "description"@, ValueModel::Text(k.description@), "description"@);
    crate::value::lemma_lookup_store(p2, "severity"@, ValueModel::Text(k.severity@), "name"@);
    crate::value::lemma_lookup_store(p2, "severity"@, ValueModel::Text(k.severity@), "description"@);
    crate::value::lemma_lookup_store(p2, "severity"@, ValueModel::Text(k.severity@), "severity"@);
    crate::value::lemma_lookup_store(p3, "kernel_obj_type"@, ValueModel::Text(kernel_type_name(k.obj_type)), "name"@);
    crate::value::lemma_lookup_store(p3, "kernel_obj_type"@, ValueModel::Text(kernel_type_name(k.obj_type)), "description"@);
    crate::value::lemma_lookup_store(p3, "kernel_obj_type"@, ValueModel::Text(kernel_type_name(k.obj_type)), "severity"@);
    crate::value::lemma_lookup_store(p3, "kernel_obj_type"@, ValueModel::Text(kernel_type_name(k.obj_type)), "kernel_obj_type"@);
    let v5 = ValueModel::Json(millionths_text(k.risk_score as nat));
    crate::value::lemma_lookup_store(p4, "risk_score"@, v5, "name"@);
    crate::value::lemma_lookup_store(p4, "risk_score"@, v5, "description"@);
    crate::value::lemma_lookup_store(p4, "risk_score"@, v5, "severity"@);
    crate::value::lemma_lookup_store(p4, "risk_score"@, v5, "kernel_obj_type"@);
    crate::value::lemma_lookup_store(p4, "risk_score"@, v5, "risk_score"@);
}

/// The entries after an optional digest is stored under `key`.
pub open spec fn store_opt(m: Seq<(Seq<char>, ValueModel)>, key: Seq<char>, h: Option<Seq<char>>) -> Seq<(Seq<char>, ValueModel)> {
    match h {
        Some(h) => store(m, key, ValueModel::Text(h)),
        None => m,
    }
}

/// The text of an optional string.
pub open spec fn opt_string(h: Option<String>) -> Option<Seq<char>> {
    match h {
        Some(h) => Some(h@),
        None => None,
    }
}

fn empty_metadata() -> (m: ObjectMetadata)
    ensures
        m@ == (MetadataModel {
            properties: Seq::empty(),
            ownership: None,
            permissions: None,
            hashes: Seq::empty(),
            package_info: None,
            tags: Seq::empty(),
        }),
{
    let m = ObjectMetadata::new();
    assert(m@.properties =~= Seq::<(Seq<char>, ValueModel)>::empty());
    assert(m@.hashes =~= Seq::<(Seq<char>, ValueModel)>::empty());
    assert(m@.tags =~= Seq::<Seq<char>>::empty());
    m
}

fn insert_opt_hash(m: &mut ObjectMetadata, key: &str, h: &Option<String>)
    ensures
        final(m)@ == (MetadataModel { hashes: store_opt(old(m)@.hashes, key@, opt_string(*h)), ..old(m)@ }),
{
    match h {
        Some(v) => {
            m.hashes.insert(owned(key), Value::String(v.clone()));
        },
        None => {},
    }
}

/// A kernel memory resource whose integrity is watched.  `risk_score` is
/// in millionths; digests are hexadecimal.
#[derive(Debug)]
pub struct MemoryObject {
    pub name: String,
    pub description: String,
    pub resource_path: String,
    pub baseline_hash: Option<String>,
    pub current_hash: Option<String>,
    pub is_modified: bool,
    pub risk_score: u32,
}

/// What is known of the object a memory resource with these parts
/// becomes.
pub open spec fn memory_metadata_of(name: Seq<char>, description: Seq<char>, path: Seq<char>,
    baseline: Option<Seq<char>>, current: Option<Seq<char>>, modified: bool, risk: u32) -> MetadataModel {
    let p1 = store(Seq::empty(), "name"@, ValueModel::Text(name));
    let p2 = store(p1, "description"@, ValueModel::Text(description));
    let p3 = store(p2, "resource_path"@, ValueModel::Text(path));
    let p4 = store(p3, "is_modified"@, ValueModel::Bool(modified));
    let p5 = store(p4, "risk_score"@, ValueModel::Json(millionths_text(risk as nat)));
    MetadataModel {
        properties: p5,
        ownership: None,
        permissions: None,
        hashes: store_opt(store_opt(Seq::empty(), "baseline_sha256"@, baseline), "current_sha256"@, current),
        package_info: None,
        tags: if modified { seq!["tampering"@, "critical"@] } else { Seq::empty() },
    }
}

/// What is known of the object a memory resource becomes.
pub open spec fn memory_metadata(m: MemoryObject) -> MetadataModel {
    memory_metadata_of(m.name@, m.description@, m.resource_path@, opt_string(m.baseline_hash),
        opt_string(m.current_hash), m.is_modified, m.risk_score)
}

impl MemoryObject {
    /// An unmodified resource of middling risk with no digests yet.
    pub fn new(name: &str, resource_path: &str, description: &str) -> (o: MemoryObject)
        ensures
            o.name@ == name@,
            o.resource_path@ == resource_path@,
            o.description@ == description@,
            o.baseline_hash is None,
            o.current_hash is None,
            !o.is_modified,
            o.risk_score == 500_000,
    {
        MemoryObject {
            name: owned(name),
            description: owned(description),
            resource_path: owned(resource_path),
            baseline_hash: None,
            current_hash: None,
            is_modified: false,
            risk_score: 500_000,
        }
    }

    /// The object the resource becomes: a memory region named after it,
    /// with its name, description, path, modification flag and risk as
    /// properties, its digests as `baseline_sha256` and `current_sha256`,
    /// and, when modified, the tags `tampering` and `critical`.
    pub fn to_sentinel_object(&self, source: &str) -> (o: SentinelObject)
        ensures
            o.id@ == object_id(ObjectType::MemoryRegion, self.name@),
            o.object_type == ObjectType::MemoryRegion,
            o.source@ == source@,
            o.metadata@ == memory_metadata(*self),
            o.relationships@.len() == 0,
            o.assessments@.len() == 0,
            o.evidence_refs@.len() == 0,
    {
        let mut metadata = empty_metadata()
            .with_property("name", Value::String(self.name.clone()))
            .with_property("description", Value::String(self.description.clone()))
            .with_property("resource_path", Value::String(self.resource_path.clone()))
            .with_property("is_modified", Value::Bool(self.is_modified))
            .with_property("risk_score", Value::Json(millionths_string(self.risk_score)));
        insert_opt_hash(&mut metadata, "baseline_sha256", &self.baseline_hash);
        insert_opt_hash(&mut metadata, "current_sha256", &self.current_hash);
        if self.is_modified {
            metadata = metadata.with_tag("tampering").with_tag("critical");
        }
        assert(metadata@.tags =~= memory_metadata(*self).tags);
        assert(metadata@ =~= memory_metadata(*self));
        SentinelObject::new(ObjectType::MemoryRegion, source, self.name.as_str()).with_metadata(metadata)
    }
}

/// The objects that memory discovery finds: the kernel symbol table and
/// the agent's own memory map.
pub fn memory_discovery_objects() -> (r: Vec<SentinelObject>)
    ensures
        r@.len() == 2,
        r@[0].id@ == object_id(ObjectType::MemoryRegion, "kallsyms_integrity"@),
        r@[0].metadata@ == memory_metadata_of("kallsyms_integrity"@, "Kernel symbol table integrity check"@,
            "/proc/kallsyms"@, None, None, false, 500_000),
        r@[1].id@ == object_id(ObjectType::MemoryRegion, "self_maps_integrity"@),
        r@[1].metadata@ == memory_metadata_of("self_maps_integrity"@, "Process memory maps integrity check"@,
            "/proc/self/maps"@, None, None, false, 500_000),
        forall|k: int| 0 <= k < 2 ==> (#[trigger] r@[k]).source@ == "memory_discovery"@
            && r@[k].object_type == ObjectType::MemoryRegion,
{
    let a = MemoryObject::new("kallsyms_integrity", "/proc/kallsyms", "Kernel symbol table integrity check");
    let b = MemoryObject::new("self_maps_integrity", "/proc/self/maps", "Process memory maps integrity check");
    let mut r: Vec<SentinelObject> = Vec::new();
    r.push(a.to_sentinel_object("memory_discovery"));
    r.push(b.to_sentinel_object("memory_discovery"));
    r
}

/// A critical file whose integrity is watched.  `risk_score` is in
/// millionths; digests are hexadecimal.
#[derive(Debug)]
pub struct IntegrityObject {
    pub path: String,
    pub baseline_hash: Option<String>,
    pub current_hash: Option<String>,
    pub is_modified: bool,
    pub is_readable: bool,
    pub risk_score: u32,
}

/// What is known of the object a watched file becomes.
pub open spec fn integrity_metadata(f: IntegrityObject) -> MetadataModel {
    let p1 = store(Seq::empty(), "path"@, ValueModel::Text(f.path@));
    let p2 = store(p1, "is_modified"@, ValueModel::Bool(f.is_modified));
    let p3 = store(p2, "is_readable"@, ValueModel::Bool(f.is_readable));
    let p4 = store(p3, "risk_score"@, ValueModel::Json(millionths_text(f.risk_score as nat)));
    let t1: Seq<Seq<char>> = if f.is_modified { seq!["modified"@, "critical"@] } else { Seq::empty() };
    MetadataModel {
        properties: p4,
        ownership: None,
        permissions: None,
        hashes: store_opt(store_opt(Seq::empty(), "baseline_sha256"@, opt_string(f.baseline_hash)), "current_sha256"@, opt_string(f.current_hash)),
        package_info: None,
        tags: if !f.is_readable { t1.push("unreadable"@) } else { t1 },
    }
}

impl IntegrityObject {
    /// A readable, unmodified file of middling risk with no digests yet.
    pub fn new(path: &str) -> (o: IntegrityObject)
        ensures
            o.path@ == path@,
            o.baseline_hash is None,
            o.current_hash is None,
            !o.is_modified,
            o.is_readable,
            o.risk_score == 500_000,
    {
        IntegrityObject {
            path: owned(path),
            baseline_hash: None,
            current_hash: None,
            is_modified: false,
            is_readable: true,
            risk_score: 500_000,
        }
    }

    /// The object the file becomes: a file named after its path (with `/`
    /// made `_`), with its path, flags and risk as properties, its digests
    /// as `baseline_sha256` and `current_sha256`, the tags `modified` and
    /// `critical` when modified, and `unreadable` when it cannot be read.
    pub fn to_sentinel_object(&self, source: &str) -> (o: SentinelObject)
        ensures
            o.id@ == object_id(ObjectType::File, slashes_to_underscores(self.path@)),
            o.object_type == ObjectType::File,
            o.source@ == source@,
            o.metadata@ == integrity_metadata(*self),
            o.relationships@.len() == 0,
            o.assessments@.len() == 0,
            o.evidence_refs@.len() == 0,
    {
        let identifier = replace_slashes(self.path.as_str());
        let mut metadata = empty_metadata()
            .with_property("path", Value::String(self.path.clone()))
            .with_property("is_modified", Value::Bool(self.is_modified))
            .with_property("is_readable", Value::Bool(self.is_readable))
            .with_property("risk_score", Value::Json(millionths_string(self.risk_score)));
        insert_opt_hash(&mut metadata, "baseline_sha256", &self.baseline_hash);
        insert_opt_hash(&mut metadata, "current_sha256", &self.current_hash);
        if self.is_modified {
            metadata = metadata.with_tag("modified").with_tag("critical");
        }
        if !self.is_readable {
            metadata = metadata.with_tag("unreadable");
        }
        assert(metadata@.tags =~= integrity_metadata(*self).tags);
        assert(metadata@ =~= integrity_metadata(*self));
        SentinelObject::new(ObjectType::File, source, identifier.as_str()).with_metadata(metadata)
    }
}

/// The objects that integrity discovery finds: one per critical file, in
/// order.
pub fn integrity_discovery_objects() -> (r: Vec<SentinelObject>)
    ensures
        r@.len() == critical_files().len(),
        forall|k: int| 0 <= k < r@.len() ==> {
            &&& (#[trigger] r@[k]).id@ == object_id(ObjectType::File, slashes_to_underscores(critical_files()[k]))
            &&& r@[k].object_type == ObjectType::File
            &&& r@[k].source@ == "integrity_discovery"@
            &&& lookup(r@[k].metadata@.properties, "path"@) == Some(ValueModel::Text(critical_files()[k]))
        },
{
    let files = critical_file_list();
    let mut r: Vec<SentinelObject> = Vec::new();
    let mut i: usize = 0;
    while i < files.len()
        invariant
            i <= files@.len(),
            strings_view(files@) == critical_files(),
            r@.len() == i,
            forall|k: int| 0 <= k < i ==> {
                &&& (#[trigger] r@[k]).id@ == object_id(ObjectType::File, slashes_to_underscores(critical_files()[k]))
                &&& r@[k].object_type == ObjectType::File
                &&& r@[k].source@ == "integrity_discovery"@
                &&& lookup(r@[k].metadata@.properties, "path"@) == Some(ValueModel::Text(critical_files()[k]))
            },
        decreases files.len() - i,
    {
        let o = IntegrityObject::new(files[i].as_str());
        assert(strings_view(files@)[i as int] == files@[i as int]@);
        let s = o.to_sentinel_object("integrity_discovery");
        proof {
            reveal_strlit("path");
            reveal_strlit("is_modified");
            reveal_strlit("is_readable");
            reveal_strlit("risk_score");
            let p1 = store(Seq::empty(), "path"@, ValueModel::Text(o.path@));
            let p2 = store(p1, "is_modified"@, ValueModel::Bool(o.is_modified));
            let p3 = store(p2, "is_readable"@, ValueModel::Bool(o.is_readable));
            assert("path"@.len() == 4 && "is_modified"@.len() == 11 && "is_readable"@.len() == 11 && "risk_score"@.len() == 10);
            assert("path"@ != "is_modified"@ && "path"@ != "is_readable"@ && "path"@ != "risk_score"@);
            crate::value::lemma_lookup_store(Seq::empty(), "path"@, ValueModel::Text(o.path@), "path"@);
            crate::value::lemma_lookup_store(p1, "is_modified"@, ValueModel::Bool(o.is_modified), "path"@);
            crate::value::lemma_lookup_store(p2, "is_readable"@, ValueModel::Bool(o.is_readable), "path"@);
            crate::value::lemma_lookup_store(p3, "risk_score"@, ValueModel::Json(millionths_text(o.risk_score as nat)), "path"@);
        }
        r.push(s);
        i += 1;
    }
    r
}

/// The text stored under `key`, or `default` when there is none.
pub open spec fn prop_text(m: Seq<(Seq<char>, ValueModel)>, key: Seq<char>, default: Seq<char>) -> Seq<char> {
    match lookup(m, key) {
        Some(ValueModel::Text(t)) => t,
        _ => default,
    }
}

fn get_text(m: &crate::value::DataMap, key: &str, default: &str) -> (s: String)
    ensures
        s@ == prop_text(m@, key@, default@),
{
    match m.get(key) {
        Some(v) => match v.as_str() {
            Some(t) => owned(t),
            None => owned(default),
        },
        None => owned(default),
    }
}

/// Whether a kernel object's severity is critical.
pub open spec fn is_critical(m: MetadataModel) -> bool {
    prop_text(m.properties, "severity"@, "Info"@) == "Critical"@
}

/// The metadata of a kernel object after classification: whether it is a
/// critical finding, whether it needs immediate attention (critical and
/// not a hardening check), and the tag `critical` when critical.
pub open spec fn kernel_classified(m: MetadataModel) -> MetadataModel {
    let critical = is_critical(m);
    let hardening = prop_text(m.properties, "kernel_obj_type"@, ""@) == "HardeningCheck"@;
    let p1 = store(m.properties, "is_critical_finding"@, ValueModel::Bool(critical));
    let p2 = store(p1, "requires_immediate_attention"@, ValueModel::Bool(critical && !hardening));
    MetadataModel {
        properties: p2,
        tags: if critical { m.tags.push("critical"@) } else { m.tags },
        ..m
    }
}

/// Classifies the risk of kernel objects (memory regions); other objects
/// are left as they are.
pub fn kernel_enrich(objects: &mut Vec<SentinelObject>)
    ensures
        final(objects)@.len() == old(objects)@.len(),
        forall|k: int| 0 <= k < old(objects)@.len() ==> {
            let (o, n) = (#[trigger] old(objects)@[k], final(objects)@[k]);
            &&& n.id == o.id
            &&& n.object_type == o.object_type
            &&& n.metadata@ == (if o.object_type == ObjectType::MemoryRegion { kernel_classified(o.metadata@) } else { o.metadata@ })
        },
{
    let ghost before = objects@;
    let mut i: usize = 0;
    while i < objects.len()
        invariant
            i <= objects@.len() == before.len(),
            forall|k: int| i <= k < before.len() ==> #[trigger] objects@[k] == before[k],
            forall|k: int| 0 <= k < i ==> {
                let (o, n) = (#[trigger] before[k], objects@[k]);
                &&& n.id == o.id
                &&& n.object_type == o.object_type
                &&& n.metadata@ == (if o.object_type == ObjectType::MemoryRegion { kernel_classified(o.metadata@) } else { o.metadata@ })
            },
        decreases objects.len() - i,
    {
        if objects[i].object_type == ObjectType::MemoryRegion {
            let mut o = objects.remove(i);
            let ghost m0 = o.metadata@;
            let kind = get_text(&o.metadata.properties, "kernel_obj_type", "");
            let severity = get_text(&o.metadata.properties, "severity", "Info");
            let critical = str_eq(severity.as_str(), "Critical");
            let hardening = str_eq(kind.as_str(), "HardeningCheck");
            o.metadata.properties.insert(owned("is_critical_finding"), Value::Bool(critical));
            o.metadata.properties.insert(owned("requires_immediate_attention"), Value::Bool(critical && !hardening));
            if critical {
                let ghost t = o.metadata.tags@;
                o.metadata.tags.push(owned("critical"));
                assert(strings_view(o.metadata.tags@) =~= strings_view(t).push("critical"@));
            }
            assert(o.metadata@ == kernel_classified(m0));
            let ghost mid = objects@;
            objects.insert(i, o);
            assert forall|k: int| i < k < before.len() implies #[trigger] objects@[k] == before[k] by {
                assert(objects@[k] == mid[k - 1]);
            }
            assert forall|k: int| 0 <= k < i implies objects@[k] == mid[k] by {}
        }
        i += 1;
    }
}

/// The resource whose digest the memory collector reads for an object:
/// the kernel symbol table or the agent's memory map, as its
/// `resource_path` property names it, for memory regions only.
pub open spec fn memory_resource_of(o: SentinelObject) -> Option<Seq<char>> {
    let p = prop_text(o.metadata@.properties, "resource_path"@, ""@);
    if o.object_type == ObjectType::MemoryRegion && (p == "/proc/kallsyms"@ || p == "/proc/self/maps"@) {
        Some(p)
    } else {
        None
    }
}

/// The resource whose digest is to be read for a memory object, if any.
pub fn memory_resource(o: &SentinelObject) -> (r: Option<String>)
    ensures
        match memory_resource_of(*o) {
            Some(p) => r matches Some(s) && s@ == p,
            None => r is None,
        },
{
    if o.object_type != ObjectType::MemoryRegion {
        return None;
    }
    let p = get_text(&o.metadata.properties, "resource_path", "");
    if str_eq(p.as_str(), "/proc/kallsyms") || str_eq(p.as_str(), "/proc/self/maps") {
        Some(p)
    } else {
        None
    }
}

/// The metadata of a memory object after its resource was read: whether
/// the resource is one the collector can read, and the digest read.
pub open spec fn memory_probed(o: SentinelObject, hash: Option<String>) -> MetadataModel {
    let m = o.metadata@;
    let accessible = memory_resource_of(o) is Some;
    MetadataModel {
        properties: store(m.properties, "resource_accessible"@, ValueModel::Bool(accessible)),
        hashes: if accessible { store_opt(m.hashes, "current_sha256"@, opt_string(hash)) } else { m.hashes },
        ..m
    }
}

/// Records what reading a memory object's resource gave (`hash`, read
/// only for the resource `memory_resource` names); other objects are left
/// as they are.
pub fn apply_memory_probe(o: &mut SentinelObject, hash: Option<String>)
    ensures
        old(o).object_type == ObjectType::MemoryRegion ==> final(o).metadata@ == memory_probed(*old(o), hash),
        old(o).object_type != ObjectType::MemoryRegion ==> final(o).metadata@ == old(o).metadata@,
        final(o).id == old(o).id,
        final(o).object_type == old(o).object_type,
{
    if o.object_type != ObjectType::MemoryRegion {
        return;
    }
    let accessible = memory_resource(o).is_some();
    o.metadata.properties.insert(owned("resource_accessible"), Value::Bool(accessible));
    if accessible {
        insert_opt_hash(&mut o.metadata, "current_sha256", &hash);
    }
}

/// The path the integrity collector reads for an object: the `path`
/// property of a file object, when present and not empty.
pub open spec fn integrity_target_of(o: SentinelObject) -> Option<Seq<char>> {
    let p = prop_text(o.metadata@.properties, "path"@, ""@);
    if o.object_type == ObjectType::File && p.len() > 0 { Some(p) } else { None }
}

/// The path to read for an object, if any.
pub fn integrity_target(o: &SentinelObject) -> (r: Option<String>)
    ensures
        match integrity_target_of(*o) {
            Some(p) => r matches Some(s) && s@ == p,
            None => r is None,
        },
{
    if o.object_type != ObjectType::File {
        return None;
    }
    let p = get_text(&o.metadata.properties, "path", "");
    proof {
        reveal_strlit("");
        if p@.len() == 0 {
            assert(p@ =~= ""@);
        }
    }
    if !str_eq(p.as_str(), "") {
        Some(p)
    } else {
        None
    }
}

/// The metadata of a file object after its file was looked at: whether it
/// is readable, its digest when readable and hashed, and the tag
/// `unreadable` when it is not.
pub open spec fn integrity_probed(m: MetadataModel, readable: bool, hash: Option<String>) -> MetadataModel {
    MetadataModel {
        properties: store(m.properties, "is_readable"@, ValueModel::Bool(readable)),
        hashes: if readable { store_opt(m.hashes, "current_sha256"@, opt_string(hash)) } else { m.hashes },
        tags: if readable { m.tags } else { m.tags.push("unreadable"@) },
        ..m
    }
}

/// Records what looking at an object's file gave, for the objects
/// `integrity_target` names a path for; others are left as they are.
pub fn apply_integrity_probe(o: &mut SentinelObject, readable: bool, hash: Option<String>)
    ensures
        integrity_target_of(*old(o)) is Some ==> final(o).metadata@ == integrity_probed(old(o).metadata@, readable, hash),
        integrity_target_of(*old(o)) is None ==> final(o).metadata@ == old(o).metadata@,
        final(o).id == old(o).id,
        final(o).object_type == old(o).object_type,
{
    if integrity_target(o).is_none() {
        return;
    }
    o.metadata.properties.insert(owned("is_readable"), Value::Bool(readable));
    if readable {
        insert_opt_hash(&mut o.metadata, "current_sha256", &hash);
    } else {
        let ghost t = o.metadata.tags@;
        o.metadata.tags.push(owned("unreadable"));
        assert(strings_view(o.metadata.tags@) =~= strings_view(t).push("unreadable"@));
    }
}

} // verus!
