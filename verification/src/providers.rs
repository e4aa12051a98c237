use vstd::prelude::*;
use crate::object::ObjectType;

verus! {

/// Discovers kernel hardening and integrity checks.  Reading the system is done by the agent around the library.
#[derive(Debug, Clone, Copy, PartialEq, Eq, Structural)]
pub struct KernelDiscoveryProvider;

impl KernelDiscoveryProvider {
    pub fn new() -> (p: KernelDiscoveryProvider)
        ensures
            p == KernelDiscoveryProvider,
    {
        KernelDiscoveryProvider
    }

    /// The name it is registered under.
    pub fn name(&self) -> (s: &'static str)
        ensures
            s@ == "kernel_discovery"@,
    {
        "kernel_discovery"
    }

    /// What it does.
    pub fn description(&self) -> (s: &'static str)
        ensures
            s@ == "Discovers kernel integrity checks and hardening status"@,
    {
        "Discovers kernel integrity checks and hardening status"
    }

    /// The kinds of object it finds.
    pub fn supported_object_types(&self) -> (v: Vec<ObjectType>)
        ensures
            v@ == seq![ObjectType::MemoryRegion],
    {
        let mut v: Vec<ObjectType> = Vec::new();
        v.push(ObjectType::MemoryRegion);
        v
    }
}

impl Default for KernelDiscoveryProvider {
    fn default() -> (p: KernelDiscoveryProvider)
        ensures
            p == KernelDiscoveryProvider,
    {
        KernelDiscoveryProvider
    }
}

/// Discovers the critical system files to watch for integrity.  Reading the system is done by the agent around the library.
#[derive(Debug, Clone, Copy, PartialEq, Eq, Structural)]
pub struct IntegrityDiscoveryProvider;

impl IntegrityDiscoveryProvider {
    pub fn new() -> (p: IntegrityDiscoveryProvider)
        ensures
            p == IntegrityDiscoveryProvider,
    {
        IntegrityDiscoveryProvider
    }

    /// The name it is registered under.
    pub fn name(&self) -> (s: &'static str)
        ensures
            s@ == "integrity_discovery"@,
    {
        "integrity_discovery"
    }

    /// What it does.
    pub fn description(&self) -> (s: &'static str)
        ensures
            s@ == "Discovers critical system files for integrity monitoring"@,
    {
        "Discovers critical system files for integrity monitoring"
    }

    /// The kinds of object it finds.
    pub fn supported_object_types(&self) -> (v: Vec<ObjectType>)
        ensures
            v@ == seq![ObjectType::File],
    {
        let mut v: Vec<ObjectType> = Vec::new();
        v.push(ObjectType::File);
        v
    }
}

impl Default for IntegrityDiscoveryProvider {
    fn default() -> (p: IntegrityDiscoveryProvider)
        ensures
            p == IntegrityDiscoveryProvider,
    {
        IntegrityDiscoveryProvider
    }
}

/// Discovers memory integrity checks.  Reading the system is done by the agent around the library.
#[derive(Debug, Clone, Copy, PartialEq, Eq, Structural)]
pub struct MemoryDiscoveryProvider;

impl MemoryDiscoveryProvider {
    pub fn new() -> (p: MemoryDiscoveryProvider)
        ensures
            p == MemoryDiscoveryProvider,
    {
        MemoryDiscoveryProvider
    }

    /// The name it is registered under.
    pub fn name(&self) -> (s: &'static str)
        ensures
            s@ == "memory_discovery"@,
    {
        "memory_discovery"
    }

    /// What it does.
    pub fn description(&self) -> (s: &'static str)
        ensures
            s@ == "Discovers memory integrity checks (kallsyms, self maps)"@,
    {
        "Discovers memory integrity checks (kallsyms, self maps)"
    }

    /// The kinds of object it finds.
    pub fn supported_object_types(&self) -> (v: Vec<ObjectType>)
        ensures
            v@ == seq![ObjectType::MemoryRegion],
    {
        let mut v: Vec<ObjectType> = Vec::new();
        v.push(ObjectType::MemoryRegion);
        v
    }
}

impl Default for MemoryDiscoveryProvider {
    fn default() -> (p: MemoryDiscoveryProvider)
        ensures
            p == MemoryDiscoveryProvider,
    {
        MemoryDiscoveryProvider
    }
}

/// Enriches kernel objects with their risk class.  Reading the system is done by the agent around the library.
#[derive(Debug, Clone, Copy, PartialEq, Eq, Structural)]
pub struct KernelMetadataCollector;

impl KernelMetadataCollector {
    pub fn new() -> (p: KernelMetadataCollector)
        ensures
            p == KernelMetadataCollector,
    {
        KernelMetadataCollector
    }

    /// The name it is registered under.
    pub fn name(&self) -> (s: &'static str)
        ensures
            s@ == "kernel_metadata"@,
    {
        "kernel_metadata"
    }

    /// What it does.
    pub fn description(&self) -> (s: &'static str)
        ensures
            s@ == "Enriches kernel objects with risk classification"@,
    {
        "Enriches kernel objects with risk classification"
    }
}

impl Default for KernelMetadataCollector {
    fn default() -> (p: KernelMetadataCollector)
        ensures
            p == KernelMetadataCollector,
    {
        KernelMetadataCollector
    }
}

/// Enriches file objects with their hash and readability.  Reading the system is done by the agent around the library.
#[derive(Debug, Clone, Copy, PartialEq, Eq, Structural)]
pub struct IntegrityMetadataCollector;

impl IntegrityMetadataCollector {
    pub fn new() -> (p: IntegrityMetadataCollector)
        ensures
            p == IntegrityMetadataCollector,
    {
        IntegrityMetadataCollector
    }

    /// The name it is registered under.
    pub fn name(&self) -> (s: &'static str)
        ensures
            s@ == "integrity_metadata"@,
    {
        "integrity_metadata"
    }

    /// What it does.
    pub fn description(&self) -> (s: &'static str)
        ensures
            s@ == "Enriches file objects with current hash and readability status"@,
    {
        "Enriches file objects with current hash and readability status"
    }
}

impl Default for IntegrityMetadataCollector {
    fn default() -> (p: IntegrityMetadataCollector)
        ensures
            p == IntegrityMetadataCollector,
    {
        IntegrityMetadataCollector
    }
}

/// Enriches memory objects with their hashes and accessibility.  Reading the system is done by the agent around the library.
#[derive(Debug, Clone, Copy, PartialEq, Eq, Structural)]
pub struct MemoryMetadataCollector;

impl MemoryMetadataCollector {
    pub fn new() -> (p: MemoryMetadataCollector)
        ensures
            p == MemoryMetadataCollector,
    {
        MemoryMetadataCollector
    }

    /// The name it is registered under.
    pub fn name(&self) -> (s: &'static str)
        ensures
            s@ == "memory_metadata"@,
    {
        "memory_metadata"
    }

    /// What it does.
    pub fn description(&self) -> (s: &'static str)
        ensures
            s@ == "Enriches memory objects with current hash values and accessibility status"@,
    {
        "Enriches memory objects with current hash values and accessibility status"
    }
}

impl Default for MemoryMetadataCollector {
    fn default() -> (p: MemoryMetadataCollector)
        ensures
            p == MemoryMetadataCollector,
    {
        MemoryMetadataCollector
    }
}

} // verus!
