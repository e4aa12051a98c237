use vstd::prelude::*;
use crate::assessment::{clamp_confidence, AssessmentResult, RiskLevel};
use crate::clock::now_micros;
use crate::core_evidence::{CoreEvidence, CoreEvidenceType, CoreSeverity};
use crate::text::{owned, push_char, push_str};
use crate::threat::strings_view;
use crate::value::{store, DataMap, Value, ValueModel};

verus! {

/// The kinds of system object that the pipeline discovers.
#[derive(Debug, Clone, Copy, PartialEq, Eq, Hash, Structural)]
pub enum ObjectType {
    Process,
    KernelModule,
    NetworkConnection,
    Service,
    Socket,
    File,
    MemoryRegion,
    User,
    Namespace,
    Container,
}

impl ObjectType {
    /// The snake-case name of the type.
    pub open spec fn name(self) -> Seq<char> {
        match self {
            ObjectType::Process => "process"@,
            ObjectType::KernelModule => "kernel_module"@,
            ObjectType::NetworkConnection => "network_connection"@,
            ObjectType::Service => "service"@,
            ObjectType::Socket => "socket"@,
            ObjectType::File => "file"@,
            ObjectType::MemoryRegion => "memory_region"@,
            ObjectType::User => "user"@,
            ObjectType::Namespace => "namespace"@,
            ObjectType::Container => "container"@,
        }
    }

    pub fn as_str(&self) -> (s: &'static str)
        ensures
            s@ == self.name(),
    {
        match self {
            ObjectType::Process => "process",
            ObjectType::KernelModule => "kernel_module",
            ObjectType::NetworkConnection => "network_connection",
            ObjectType::Service => "service",
            ObjectType::Socket => "socket",
            ObjectType::File => "file",
            ObjectType::MemoryRegion => "memory_region",
            ObjectType::User => "user",
            ObjectType::Namespace => "namespace",
            ObjectType::Container => "container",
        }
    }
}

/// How one object relates to another.
#[derive(Debug, Clone, Copy, PartialEq, Eq, Hash, Structural)]
pub enum RelationshipType {
    Parent,
    Child,
    DependsOn,
    ConnectsTo,
    Loads,
    Executes,
    Modifies,
    Owns,
}

/// A relationship of an object to the object with id `target_id`.
#[derive(Debug, Clone)]
pub struct ObjectRelationship {
    pub relationship_type: RelationshipType,
    pub target_id: String,
}

/// The owner of an object.
#[derive(Debug, Clone)]
pub struct OwnershipInfo {
    pub uid: u32,
    pub gid: u32,
    pub user: String,
    pub group: String,
}

/// The permission bits of an object and what they imply.
#[derive(Debug, Clone, Copy, PartialEq, Eq, Structural)]
pub struct PermissionInfo {
    pub mode: u32,
    pub is_executable: bool,
    pub is_world_writable: bool,
    pub is_setuid: bool,
    pub is_setgid: bool,
}

/// The package an object belongs to.
#[derive(Debug, Clone)]
pub struct PackageInfo {
    pub name: String,
    pub version: String,
    pub manager: String,
}

/// What has been learnt about an object.  `hashes` maps a digest name to
/// the digest's text.
pub struct ObjectMetadata {
    pub properties: DataMap,
    pub ownership: Option<OwnershipInfo>,
    pub permissions: Option<PermissionInfo>,
    pub hashes: DataMap,
    pub package_info: Option<PackageInfo>,
    pub tags: Vec<String>,
}

/// The mathematical content of an [`ObjectMetadata`].
pub struct MetadataModel {
    pub properties: Seq<(Seq<char>, ValueModel)>,
    pub ownership: Option<OwnershipInfo>,
    pub permissions: Option<PermissionInfo>,
    pub hashes: Seq<(Seq<char>, ValueModel)>,
    pub package_info: Option<PackageInfo>,
    pub tags: Seq<Seq<char>>,
}

impl View for ObjectMetadata {
    type V = MetadataModel;

    open spec fn view(&self) -> MetadataModel {
        MetadataModel {
            properties: self.properties@,
            ownership: self.ownership,
            permissions: self.permissions,
            hashes: self.hashes@,
            package_info: self.package_info,
            tags: strings_view(self.tags@),
        }
    }
}

impl MetadataModel {
    /// Whether anything beyond tags has been learnt.
    pub open spec fn enriched(self) -> bool {
        self.properties.len() > 0 || self.ownership is Some || self.permissions is Some
            || self.hashes.len() > 0 || self.package_info is Some
    }
}

impl ObjectMetadata {
    /// Metadata with nothing learnt yet.
    pub fn new() -> (m: ObjectMetadata)
        ensures
            m@.properties.len() == 0,
            m.ownership is None,
            m.permissions is None,
            m@.hashes.len() == 0,
            m.package_info is None,
            m@.tags.len() == 0,
    {
        ObjectMetadata {
            properties: DataMap::new(),
            ownership: None,
            permissions: None,
            hashes: DataMap::new(),
            package_info: None,
            tags: Vec::new(),
        }
    }

    /// Stores `value` under `key` among the properties.
    pub fn with_property(self, key: &str, value: Value) -> (r: ObjectMetadata)
        ensures
            r@ == (MetadataModel { properties: store(self@.properties, key@, value@), ..self@ }),
    {
        let mut m = self;
        m.properties.insert(owned(key), value);
        m
    }

    pub fn with_ownership(self, ownership: OwnershipInfo) -> (r: ObjectMetadata)
        ensures
            r@ == (MetadataModel { ownership: Some(ownership), ..self@ }),
    {
        let mut m = self;
        m.ownership = Some(ownership);
        m
    }

    pub fn with_permissions(self, permissions: PermissionInfo) -> (r: ObjectMetadata)
        ensures
            r@ == (MetadataModel { permissions: Some(permissions), ..self@ }),
    {
        let mut m = self;
        m.permissions = Some(permissions);
        m
    }

    pub fn with_tag(self, tag: &str) -> (r: ObjectMetadata)
        ensures
            r@ == (MetadataModel { tags: self@.tags.push(tag@), ..self@ }),
    {
        let mut m = self;
        let ghost before = m.tags@;
        m.tags.push(owned(tag));
        assert(strings_view(m.tags@) =~= strings_view(before).push(tag@));
        m
    }

    /// Whether anything beyond tags has been learnt.
    pub fn is_enriched(&self) -> (b: bool)
        ensures
            b == self@.enriched(),
    {
        !self.properties.is_empty() || self.ownership.is_some() || self.permissions.is_some()
            || !self.hashes.is_empty() || self.package_info.is_some()
    }
}

impl Default for ObjectMetadata {
    fn default() -> (m: ObjectMetadata)
        ensures
            m@.properties.len() == 0,
            m.ownership is None,
            m.permissions is None,
            m@.hashes.len() == 0,
            m.package_info is None,
            m@.tags.len() == 0,
    {
        ObjectMetadata::new()
    }
}

/// An object of the system under watch.  `created_at` is in microseconds
/// since the Unix epoch; evidence references are 128-bit UUID values.
pub struct SentinelObject {
    pub id: String,
    pub object_type: ObjectType,
    pub metadata: ObjectMetadata,
    pub relationships: Vec<ObjectRelationship>,
    pub created_at: i64,
    pub source: String,
    pub assessments: Vec<AssessmentResult>,
    pub evidence_refs: Vec<u128>,
}

/// The id of an object: its type's name, a colon and its identifier.
pub open spec fn object_id(object_type: ObjectType, identifier: Seq<char>) -> Seq<char> {
    object_type.name().push(':') + identifier
}

impl SentinelObject {
    /// A new object found by `source`, with id `<type>:<identifier>`,
    /// stamped with the current time and with nothing known of it yet.
    pub fn new(object_type: ObjectType, source: &str, identifier: &str) -> (o: SentinelObject)
        ensures
            o.id@ == object_id(object_type, identifier@),
            o.object_type == object_type,
            o.source@ == source@,
            o.metadata@.properties.len() == 0,
            o.metadata.ownership is None,
            o.metadata.permissions is None,
            o.metadata@.hashes.len() == 0,
            o.metadata.package_info is None,
            o.metadata@.tags.len() == 0,
            o.relationships@.len() == 0,
            o.assessments@.len() == 0,
            o.evidence_refs@.len() == 0,
    {
        let mut id = owned(object_type.as_str());
        push_char(&mut id, ':');
        push_str(&mut id, identifier);
        SentinelObject {
            id,
            object_type,
            metadata: ObjectMetadata::new(),
            relationships: Vec::new(),
            created_at: now_micros(),
            source: owned(source),
            assessments: Vec::new(),
            evidence_refs: Vec::new(),
        }
    }

    pub fn with_metadata(self, metadata: ObjectMetadata) -> (r: SentinelObject)
        ensures
            r.metadata@ == metadata@,
            r.id == self.id,
            r.object_type == self.object_type,
            r.relationships@ == self.relationships@,
            r.created_at == self.created_at,
            r.source == self.source,
            r.assessments@ == self.assessments@,
            r.evidence_refs@ == self.evidence_refs@,
    {
        let mut o = self;
        o.metadata = metadata;
        o
    }

    pub fn with_relationship(self, rel: ObjectRelationship) -> (r: SentinelObject)
        ensures
            r.relationships@ == self.relationships@.push(rel),
            r.metadata@ == self.metadata@,
            r.id == self.id,
            r.object_type == self.object_type,
            r.created_at == self.created_at,
            r.source == self.source,
            r.assessments@ == self.assessments@,
            r.evidence_refs@ == self.evidence_refs@,
    {
        let mut o = self;
        o.relationships.push(rel);
        o
    }

    pub fn with_evidence_ref(self, evidence_id: u128) -> (r: SentinelObject)
        ensures
            r.evidence_refs@ == self.evidence_refs@.push(evidence_id),
            r.metadata@ == self.metadata@,
            r.id == self.id,
            r.object_type == self.object_type,
            r.relationships@ == self.relationships@,
            r.created_at == self.created_at,
            r.source == self.source,
            r.assessments@ == self.assessments@,
    {
        let mut o = self;
        o.evidence_refs.push(evidence_id);
        o
    }
}

/// The number of objects among the first `n` of which something beyond
/// tags has been learnt.
pub open spec fn enriched_count(objects: Seq<SentinelObject>, n: int) -> nat
    decreases n,
{
    if n <= 0 {
        0
    } else if objects[n - 1].metadata@.enriched() {
        enriched_count(objects, n - 1) + 1
    } else {
        enriched_count(objects, n - 1)
    }
}

proof fn lemma_enriched_count_bound(objects: Seq<SentinelObject>, n: int)
    requires
        0 <= n,
    ensures
        enriched_count(objects, n) <= n,
    decreases n,
{
    if n > 0 {
        lemma_enriched_count_bound(objects, n - 1);
    }
}

/// The number of objects of which something beyond tags has been learnt.
pub fn count_enriched(objects: &[SentinelObject]) -> (n: usize)
    ensures
        n == enriched_count(objects@, objects@.len() as int),
{
    let mut n: usize = 0;
    let mut i: usize = 0;
    while i < objects.len()
        invariant
            i <= objects@.len(),
            n == enriched_count(objects@, i as int),
        decreases objects.len() - i,
    {
        proof {
            lemma_enriched_count_bound(objects@, i as int);
        }
        if objects[i].metadata.is_enriched() {
            n += 1;
        }
        i += 1;
    }
    n
}

/// Whether an assessor that supports the types `supported` (every type
/// when the list is empty) applies to an object of type `t`.
pub fn assessor_applies(supported: &Vec<ObjectType>, t: ObjectType) -> (b: bool)
    ensures
        b == (supported@.len() == 0 || supported@.contains(t)),
{
    if supported.len() == 0 {
        return true;
    }
    let mut i: usize = 0;
    while i < supported.len()
        invariant
            i <= supported@.len(),
            forall|j: int| 0 <= j < i ==> supported@[j] != t,
        decreases supported.len() - i,
    {
        if supported[i] == t {
            return true;
        }
        i += 1;
    }
    false
}

/// The severity of the evidence raised for a risk level; no evidence is
/// raised for no risk.
pub open spec fn risk_severity(risk: RiskLevel) -> Option<CoreSeverity> {
    match risk {
        RiskLevel::NoRisk => None,
        RiskLevel::Low => Some(CoreSeverity::Low),
        RiskLevel::Medium => Some(CoreSeverity::Medium),
        RiskLevel::High => Some(CoreSeverity::High),
        RiskLevel::Critical => Some(CoreSeverity::Critical),
    }
}

/// The kind of evidence raised for an object of the given type.
pub open spec fn object_evidence_type(t: ObjectType) -> CoreEvidenceType {
    match t {
        ObjectType::Process => CoreEvidenceType::ProcessIntegrity,
        ObjectType::KernelModule => CoreEvidenceType::KernelIntegrity,
        ObjectType::NetworkConnection => CoreEvidenceType::NetworkIntegrity,
        ObjectType::File => CoreEvidenceType::FileIntegrity,
        ObjectType::MemoryRegion => CoreEvidenceType::MemoryIntegrity,
        ObjectType::Service => CoreEvidenceType::PersistenceIntegrity,
        _ => CoreEvidenceType::SystemIntegrity,
    }
}

fn severity_for_risk(risk: RiskLevel) -> (r: Option<CoreSeverity>)
    ensures
        r == risk_severity(risk),
{
    match risk {
        RiskLevel::NoRisk => None,
        RiskLevel::Low => Some(CoreSeverity::Low),
        RiskLevel::Medium => Some(CoreSeverity::Medium),
        RiskLevel::High => Some(CoreSeverity::High),
        RiskLevel::Critical => Some(CoreSeverity::Critical),
    }
}

fn evidence_type_for_object(t: ObjectType) -> (r: CoreEvidenceType)
    ensures
        r == object_evidence_type(t),
{
    match t {
        ObjectType::Process => CoreEvidenceType::ProcessIntegrity,
        ObjectType::KernelModule => CoreEvidenceType::KernelIntegrity,
        ObjectType::NetworkConnection => CoreEvidenceType::NetworkIntegrity,
        ObjectType::File => CoreEvidenceType::FileIntegrity,
        ObjectType::MemoryRegion => CoreEvidenceType::MemoryIntegrity,
        ObjectType::Service => CoreEvidenceType::PersistenceIntegrity,
        _ => CoreEvidenceType::SystemIntegrity,
    }
}

/// What the evidence raised for one assessment records, apart from its
/// random id and its time: the object, the kind, the severity, the
/// assessor, the confidence and the assessment itself.
pub struct RaisedEvidence {
    pub object_id: Seq<char>,
    pub evidence_type: CoreEvidenceType,
    pub severity: CoreSeverity,
    pub source: Seq<char>,
    pub confidence: u32,
    pub assessment: AssessmentResult,
}

/// The evidence raised for one object: one item per assessment with some
/// risk, in assessment order.
pub open spec fn raised_for(o: SentinelObject, n: int) -> Seq<RaisedEvidence>
    decreases n,
{
    if n <= 0 {
        Seq::empty()
    } else {
        let prev = raised_for(o, n - 1);
        let a = o.assessments@[n - 1];
        match risk_severity(a.risk) {
            Some(sev) => prev.push(RaisedEvidence {
                object_id: o.id@,
                evidence_type: object_evidence_type(o.object_type),
                severity: sev,
                source: a.assessor@,
                confidence: clamp_confidence(a.confidence as int),
                assessment: a,
            }),
            None => prev,
        }
    }
}

/// The evidence raised for the first `n` objects, in object order.
pub open spec fn raised_evidence(objects: Seq<SentinelObject>, n: int) -> Seq<RaisedEvidence>
    decreases n,
{
    if n <= 0 {
        Seq::empty()
    } else {
        raised_evidence(objects, n - 1) + raised_for(objects[n - 1], objects[n - 1].assessments@.len() as int)
    }
}

/// What a core evidence record says of the assessment it was raised for.
pub open spec fn raised_view(e: CoreEvidence) -> RaisedEvidence {
    RaisedEvidence {
        object_id: e.object_id@,
        evidence_type: e.evidence_type,
        severity: e.severity,
        source: e.source@,
        confidence: e.confidence,
        assessment: e.assessment_snapshot->0,
    }
}

/// Each item raised for the first `n` assessments of an object carries
/// one of them, which has some risk, and the object's id.
pub proof fn lemma_raised_for_sources(o: SentinelObject, n: int)
    requires
        0 <= n <= o.assessments@.len(),
    ensures
        forall|k: int| 0 <= k < raised_for(o, n).len() ==> exists|j: int| 0 <= j < n
            && (#[trigger] raised_for(o, n)[k]).assessment == o.assessments@[j]
            && raised_for(o, n)[k].object_id == o.id@
            && o.assessments@[j].risk != RiskLevel::NoRisk,
    decreases n,
{
    if n > 0 {
        lemma_raised_for_sources(o, n - 1);
        let prev = raised_for(o, n - 1);
        assert forall|k: int| 0 <= k < raised_for(o, n).len() implies exists|j: int| 0 <= j < n
            && (#[trigger] raised_for(o, n)[k]).assessment == o.assessments@[j]
            && raised_for(o, n)[k].object_id == o.id@
            && o.assessments@[j].risk != RiskLevel::NoRisk by {
            if k < prev.len() {
                assert(raised_for(o, n)[k] == prev[k]);
                let j = choose|j: int| 0 <= j < n - 1 && (#[trigger] prev[k]).assessment == o.assessments@[j]
                    && prev[k].object_id == o.id@ && o.assessments@[j].risk != RiskLevel::NoRisk;
                assert(0 <= j < n);
            } else {
                assert(raised_for(o, n)[k].assessment == o.assessments@[n - 1]);
            }
        }
    }
}

/// Evidence raised for one object takes the severity named like the
/// assessment's risk.
proof fn lemma_raised_for_severity(o: SentinelObject, n: int)
    requires
        0 <= n <= o.assessments@.len(),
    ensures
        forall|k: int| 0 <= k < raised_for(o, n).len()
            ==> (#[trigger] raised_for(o, n)[k]).severity.name() == raised_for(o, n)[k].assessment.risk.name(),
    decreases n,
{
    if n > 0 {
        lemma_raised_for_severity(o, n - 1);
        let prev = raised_for(o, n - 1);
        assert forall|k: int| 0 <= k < raised_for(o, n).len()
            implies (#[trigger] raised_for(o, n)[k]).severity.name() == raised_for(o, n)[k].assessment.risk.name() by {
            if k < prev.len() {
                assert(raised_for(o, n)[k] == prev[k]);
            } else {
                let a = o.assessments@[n - 1];
                match a.risk {
                    RiskLevel::NoRisk => {},
                    RiskLevel::Low => {},
                    RiskLevel::Medium => {},
                    RiskLevel::High => {},
                    RiskLevel::Critical => {},
                }
            }
        }
    }
}

/// The evidence raised for an assessment has the severity of the same name
/// as the assessment's risk: low risk raises low evidence, medium risk
/// medium evidence, high risk high evidence and critical risk critical
/// evidence.
pub proof fn lemma_raised_severity_matches_risk(objects: Seq<SentinelObject>, n: int)
    requires
        0 <= n <= objects.len(),
    ensures
        forall|k: int| 0 <= k < raised_evidence(objects, n).len()
            ==> (#[trigger] raised_evidence(objects, n)[k]).severity.name()
                == raised_evidence(objects, n)[k].assessment.risk.name(),
    decreases n,
{
    if n > 0 {
        lemma_raised_severity_matches_risk(objects, n - 1);
        let prev = raised_evidence(objects, n - 1);
        let o = objects[n - 1];
        let here = raised_for(o, o.assessments@.len() as int);
        lemma_raised_for_severity(o, o.assessments@.len() as int);
        assert forall|k: int| 0 <= k < raised_evidence(objects, n).len()
            implies (#[trigger] raised_evidence(objects, n)[k]).severity.name()
                == raised_evidence(objects, n)[k].assessment.risk.name() by {
            if k < prev.len() {
                assert(raised_evidence(objects, n)[k] == prev[k]);
            } else {
                assert(raised_evidence(objects, n)[k] == here[k - prev.len()]);
            }
        }
    }
}

/// Evidence comes only from assessments: every item raised from objects
/// carries an assessment with some risk of one of the objects, and that
/// object's id.  So objects that were not assessed raise nothing.
pub proof fn lemma_evidence_only_from_assessments(objects: Seq<SentinelObject>, n: int)
    requires
        0 <= n <= objects.len(),
    ensures
        forall|k: int| 0 <= k < raised_evidence(objects, n).len() ==> exists|i: int, j: int|
            0 <= i < n && 0 <= j < objects[i].assessments@.len()
            && (#[trigger] raised_evidence(objects, n)[k]).assessment == objects[i].assessments@[j]
            && raised_evidence(objects, n)[k].object_id == objects[i].id@
            && objects[i].assessments@[j].risk != RiskLevel::NoRisk,
        (forall|i: int| 0 <= i < n ==> (#[trigger] objects[i]).assessments@.len() == 0)
            ==> raised_evidence(objects, n).len() == 0,
    decreases n,
{
    if n > 0 {
        lemma_evidence_only_from_assessments(objects, n - 1);
        let prev = raised_evidence(objects, n - 1);
        let o = objects[n - 1];
        let m = o.assessments@.len() as int;
        lemma_raised_for_sources(o, m);
        let here = raised_for(o, m);
        assert(raised_evidence(objects, n) == prev + here);
        assert forall|k: int| 0 <= k < raised_evidence(objects, n).len() implies exists|i: int, j: int|
            0 <= i < n && 0 <= j < objects[i].assessments@.len()
            && (#[trigger] raised_evidence(objects, n)[k]).assessment == objects[i].assessments@[j]
            && raised_evidence(objects, n)[k].object_id == objects[i].id@
            && objects[i].assessments@[j].risk != RiskLevel::NoRisk by {
            if k < prev.len() {
                assert(raised_evidence(objects, n)[k] == prev[k]);
                let (i, j) = choose|i: int, j: int| 0 <= i < n - 1 && 0 <= j < objects[i].assessments@.len()
                    && (#[trigger] prev[k]).assessment == objects[i].assessments@[j]
                    && prev[k].object_id == objects[i].id@
                    && objects[i].assessments@[j].risk != RiskLevel::NoRisk;
                assert(0 <= i < n);
            } else {
                let q = k - prev.len();
                assert(raised_evidence(objects, n)[k] == here[q]);
                let j = choose|j: int| 0 <= j < m && (#[trigger] here[q]).assessment == o.assessments@[j]
                    && here[q].object_id == o.id@ && o.assessments@[j].risk != RiskLevel::NoRisk;
                assert(0 <= n - 1 < n && 0 <= j < objects[n - 1].assessments@.len());
            }
        }
        if forall|i: int| 0 <= i < n ==> (#[trigger] objects[i]).assessments@.len() == 0 {
            assert(objects[n - 1].assessments@.len() == 0);
            assert(forall|i: int| 0 <= i < n - 1 ==> (#[trigger] objects[i]).assessments@.len() == 0);
            assert(here.len() == 0);
        }
    }
}

/// A record raised for an assessment carries no data, no metadata and no
/// related items.
pub open spec fn plain_raised(e: CoreEvidence) -> bool {
    &&& e.assessment_snapshot is Some
    &&& e.assessment_id is None
    &&& e.data@.len() == 0
    &&& e.metadata_snapshot@.len() == 0
    &&& e.related_evidence@.len() == 0
}

/// The evidence that the pipeline raises from assessed objects: for each
/// object in order, one record per assessment with some risk, carrying the
/// object's id, a kind chosen by the object's type, a severity equal to the
/// risk, the assessor as source, the assessment's confidence and the
/// assessment itself.  Objects with no assessment raise nothing.
pub fn evidence_from_assessments(objects: &[SentinelObject]) -> (r: Vec<CoreEvidence>)
    ensures
        r@.len() == raised_evidence(objects@, objects@.len() as int).len(),
        forall|k: int| 0 <= k < r@.len() ==> raised_view(#[trigger] r@[k]) == raised_evidence(objects@, objects@.len() as int)[k],
        forall|k: int| 0 <= k < r@.len() ==> plain_raised(#[trigger] r@[k]),
{
    let mut r: Vec<CoreEvidence> = Vec::new();
    let mut i: usize = 0;
    while i < objects.len()
        invariant
            i <= objects@.len(),
            r@.len() == raised_evidence(objects@, i as int).len(),
            forall|k: int| 0 <= k < r@.len() ==> raised_view(#[trigger] r@[k]) == raised_evidence(objects@, i as int)[k],
            forall|k: int| 0 <= k < r@.len() ==> plain_raised(#[trigger] r@[k]),
        decreases objects.len() - i,
    {
        let object = &objects[i];
        let ghost start = r@;
        let ghost before = raised_evidence(objects@, i as int);
        let mut j: usize = 0;
        while j < object.assessments.len()
            invariant
                i < objects@.len(),
                *object == objects@[i as int],
                j <= object.assessments@.len(),
                before == raised_evidence(objects@, i as int),
                start.len() == before.len(),
                r@.len() == before.len() + raised_for(*object, j as int).len(),
                forall|k: int| 0 <= k < start.len() ==> r@[k] == start[k],
                forall|k: int| 0 <= k < start.len() ==> raised_view(#[trigger] start[k]) == before[k],
                forall|k: int| 0 <= k < raised_for(*object, j as int).len()
                    ==> raised_view(#[trigger] r@[before.len() + k]) == raised_for(*object, j as int)[k],
                forall|k: int| 0 <= k < r@.len() ==> plain_raised(#[trigger] r@[k]),
            decreases object.assessments.len() - j,
        {
            let a = &object.assessments[j];
            match severity_for_risk(a.risk) {
                Some(severity) => {
                    let ev = CoreEvidence::new(object.id.as_str(), evidence_type_for_object(object.object_type),
                        severity, a.assessor.as_str())
                        .with_confidence(a.confidence as i64)
                        .with_assessment(a.duplicate());
                    let ghost prev = raised_for(*object, j as int);
                    let ghost old_r = r@;
                    r.push(ev);
                    proof {
                        assert(raised_for(*object, j + 1) == prev.push(raised_view(ev)));
                        assert forall|k: int| 0 <= k < raised_for(*object, j + 1).len()
                            implies raised_view(#[trigger] r@[before.len() + k]) == raised_for(*object, j + 1)[k] by {
                            if k < prev.len() {
                                assert(r@[before.len() + k] == old_r[before.len() + k]);
                            }
                        }
                    }
                },
                None => {},
            }
            j += 1;
        }
        proof {
            let after = raised_evidence(objects@, i + 1);
            assert(after == before + raised_for(*object, object.assessments@.len() as int));
            assert forall|k: int| 0 <= k < r@.len() implies raised_view(#[trigger] r@[k]) == after[k] by {
                if k < start.len() {
                    assert(r@[k] == start[k]);
                } else {
                    assert(raised_view(r@[before.len() + (k - before.len())]) == raised_for(*object, object.assessments@.len() as int)[k - before.len()]);
                }
            }
        }
        i += 1;
    }
    r
}

/// A failure of one stage of the pipeline, with its message.
#[derive(Debug, Clone)]
pub enum CoreError {
    Discovery(String),
    Metadata(String),
    Assessment(String),
    Evidence(String),
    Pipeline(String),
}

impl CoreError {
    /// The text of the error: the stage, `error: ` and the message.
    pub open spec fn text(self) -> Seq<char> {
        match self {
            CoreError::Discovery(m) => "Discovery error: "@ + m@,
            CoreError::Metadata(m) => "Metadata error: "@ + m@,
            CoreError::Assessment(m) => "Assessment error: "@ + m@,
            CoreError::Evidence(m) => "Evidence error: "@ + m@,
            CoreError::Pipeline(m) => "Pipeline error: "@ + m@,
        }
    }

    /// The text of the error: the stage, `error: ` and the message.
    pub fn message(&self) -> (s: String)
        ensures
            s@ == self.text(),
    {
        let (prefix, m) = match self {
            CoreError::Discovery(m) => ("Discovery error: ", m),
            CoreError::Metadata(m) => ("Metadata error: ", m),
            CoreError::Assessment(m) => ("Assessment error: ", m),
            CoreError::Evidence(m) => ("Evidence error: ", m),
            CoreError::Pipeline(m) => ("Pipeline error: ", m),
        };
        let mut s = owned(prefix);
        push_str(&mut s, m.as_str());
        s
    }
}

} // verus!
