use vstd::prelude::*;
use crate::text::{owned, str_eq};

verus! {

/// What a kernel object found by discovery stands for.
#[derive(Debug, Clone, Copy, PartialEq, Eq, Structural)]
pub enum KernelObjectType {
    HookDetection,
    IntegrityViolation,
    HardeningCheck,
}

/// A kernel hardening setting that is not as it should be.
#[derive(Debug)]
pub struct HardeningCheck {
    pub name: String,
    pub expected: String,
    pub actual: String,
    pub severity: String,
}

/// The finding for a setting, as its parts.
pub open spec fn finding(c: HardeningCheck) -> (Seq<char>, Seq<char>, Seq<char>, Seq<char>) {
    (c.name@, c.expected@, c.actual@, c.severity@)
}

/// The check of `kernel.kptr_restrict`, given its trimmed value (`None`
/// when it could not be read): anything but `1` or `2` leaves kernel
/// addresses visible.
pub fn check_kptr_restrict(value: Option<&str>) -> (r: Option<HardeningCheck>)
    ensures
        value is None ==> r is None,
        value matches Some(v) ==> (if v@ == "1"@ || v@ == "2"@ {
            r is None
        } else {
            r matches Some(c) && finding(c) == ("kptr_restrict"@, "1 or 2"@, v@, "Medium"@)
        }),
{
    match value {
        None => None,
        Some(v) => {
            if !str_eq(v, "1") && !str_eq(v, "2") {
                Some(HardeningCheck {
                    name: owned("kptr_restrict"),
                    expected: owned("1 or 2"),
                    actual: owned(v),
                    severity: owned("Medium"),
                })
            } else {
                None
            }
        },
    }
}

/// The check of `kernel.dmesg_restrict`, given its trimmed value: anything
/// but `1` leaves the kernel log readable.
pub fn check_dmesg_restrict(value: Option<&str>) -> (r: Option<HardeningCheck>)
    ensures
        value is None ==> r is None,
        value matches Some(v) ==> (if v@ == "1"@ {
            r is None
        } else {
            r matches Some(c) && finding(c) == ("dmesg_restrict"@, "1"@, v@, "Low"@)
        }),
{
    match value {
        None => None,
        Some(v) => {
            if !str_eq(v, "1") {
                Some(HardeningCheck {
                    name: owned("dmesg_restrict"),
                    expected: owned("1"),
                    actual: owned(v),
                    severity: owned("Low"),
                })
            } else {
                None
            }
        },
    }
}

/// The check of `kernel.modules_disabled`, given its trimmed value:
/// anything but `1` lets modules load.
pub fn check_modules_disabled(value: Option<&str>) -> (r: Option<HardeningCheck>)
    ensures
        value is None ==> r is None,
        value matches Some(v) ==> (if v@ == "1"@ {
            r is None
        } else {
            r matches Some(c) && finding(c) == ("modules_disabled"@, "1 (modules loading disabled)"@, v@, "Info"@)
        }),
{
    match value {
        None => None,
        Some(v) => {
            if !str_eq(v, "1") {
                Some(HardeningCheck {
                    name: owned("modules_disabled"),
                    expected: owned("1 (modules loading disabled)"),
                    actual: owned(v),
                    severity: owned("Info"),
                })
            } else {
                None
            }
        },
    }
}

/// What reading the Secure Boot variable gave.
pub enum SecureBootRead {
    /// The machine has no EFI firmware directory.
    NoEfi,
    /// The variable could not be read.
    Unreadable,
    /// The variable's bytes.
    Bytes(Vec<u8>),
}

/// The check of Secure Boot: on EFI machines, a variable whose last byte
/// is not 1 means it is off, and an unreadable one is reported too.
pub fn check_secure_boot(read: &SecureBootRead) -> (r: Option<HardeningCheck>)
    ensures
        read is NoEfi ==> r is None,
        read is Unreadable ==> (r matches Some(c) && finding(c) == ("secure_boot"@, "present"@, "unreadable"@, "Low"@)),
        read matches SecureBootRead::Bytes(b) ==> (if b@.len() > 0 && b@.last() != 1 {
            r matches Some(c) && finding(c) == ("secure_boot"@, "enabled"@, "disabled"@, "Medium"@)
        } else {
            r is None
        }),
{
    match read {
        SecureBootRead::NoEfi => None,
        SecureBootRead::Unreadable => Some(HardeningCheck {
            name: owned("secure_boot"),
            expected: owned("present"),
            actual: owned("unreadable"),
            severity: owned("Low"),
        }),
        SecureBootRead::Bytes(b) => {
            if b.len() > 0 && b[b.len() - 1] != 1 {
                Some(HardeningCheck {
                    name: owned("secure_boot"),
                    expected: owned("enabled"),
                    actual: owned("disabled"),
                    severity: owned("Medium"),
                })
            } else {
                None
            }
        },
    }
}

} // verus!
