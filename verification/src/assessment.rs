use vstd::prelude::*;
use crate::clock::now_micros;

verus! {

/// The largest confidence: confidences are counted in millionths, so
/// this stands for certainty.
pub const CONFIDENCE_ONE: u32 = 1_000_000;

/// A confidence given in millionths, clamped to `0 ..= CONFIDENCE_ONE`.
pub open spec fn clamp_confidence(c: int) -> u32 {
    if c < 0 {
        0
    } else if c > CONFIDENCE_ONE {
        CONFIDENCE_ONE
    } else {
        c as u32
    }
}

/// Clamps a confidence given in millionths to `0 ..= CONFIDENCE_ONE`.
pub fn clamped_confidence(c: i64) -> (r: u32)
    ensures
        r == clamp_confidence(c as int),
{
    if c < 0 {
        0
    } else if c > CONFIDENCE_ONE as i64 {
        CONFIDENCE_ONE
    } else {
        c as u32
    }
}

/// How far an object is trusted.
#[derive(Debug, Clone, Copy, PartialEq, Eq, Hash, Structural)]
pub enum TrustLevel {
    Trusted,
    Untrusted,
    Unknown,
}

impl TrustLevel {
    /// The lower-case name of the level.
    pub open spec fn name(self) -> Seq<char> {
        match self {
            TrustLevel::Trusted => "trusted"@,
            TrustLevel::Untrusted => "untrusted"@,
            TrustLevel::Unknown => "unknown"@,
        }
    }

    pub fn as_str(&self) -> (s: &'static str)
        ensures
            s@ == self.name(),
    {
        match self {
            TrustLevel::Trusted => "trusted",
            TrustLevel::Untrusted => "untrusted",
            TrustLevel::Unknown => "unknown",
        }
    }
}

/// Whether an object is unaltered.
#[derive(Debug, Clone, Copy, PartialEq, Eq, Hash, Structural)]
pub enum IntegrityLevel {
    Intact,
    Tampered,
    Unknown,
}

impl IntegrityLevel {
    /// The lower-case name of the level.
    pub open spec fn name(self) -> Seq<char> {
        match self {
            IntegrityLevel::Intact => "intact"@,
            IntegrityLevel::Tampered => "tampered"@,
            IntegrityLevel::Unknown => "unknown"@,
        }
    }

    pub fn as_str(&self) -> (s: &'static str)
        ensures
            s@ == self.name(),
    {
        match self {
            IntegrityLevel::Intact => "intact",
            IntegrityLevel::Tampered => "tampered",
            IntegrityLevel::Unknown => "unknown",
        }
    }
}

/// The risk an object poses, ordered from `NoRisk` to `Critical`.
#[derive(Debug, Clone, Copy, PartialEq, Eq, PartialOrd, Ord, Hash, Structural)]
pub enum RiskLevel {
    NoRisk,
    Low,
    Medium,
    High,
    Critical,
}

impl RiskLevel {
    /// The position of the level in the order `NoRisk < Low < ... < Critical`.
    pub open spec fn rank(self) -> int {
        match self {
            RiskLevel::NoRisk => 0,
            RiskLevel::Low => 1,
            RiskLevel::Medium => 2,
            RiskLevel::High => 3,
            RiskLevel::Critical => 4,
        }
    }

    /// The lower-case name of the level.
    pub open spec fn name(self) -> Seq<char> {
        match self {
            RiskLevel::NoRisk => "none"@,
            RiskLevel::Low => "low"@,
            RiskLevel::Medium => "medium"@,
            RiskLevel::High => "high"@,
            RiskLevel::Critical => "critical"@,
        }
    }

    pub fn as_str(&self) -> (s: &'static str)
        ensures
            s@ == self.name(),
    {
        match self {
            RiskLevel::NoRisk => "none",
            RiskLevel::Low => "low",
            RiskLevel::Medium => "medium",
            RiskLevel::High => "high",
            RiskLevel::Critical => "critical",
        }
    }
}

/// What is known of an object's reputation.
#[derive(Debug, Clone, Copy, PartialEq, Eq, Hash, Structural)]
pub enum ReputationLevel {
    Known,
    Suspicious,
    Malicious,
    Unknown,
}

impl ReputationLevel {
    /// The lower-case name of the level.
    pub open spec fn name(self) -> Seq<char> {
        match self {
            ReputationLevel::Known => "known"@,
            ReputationLevel::Suspicious => "suspicious"@,
            ReputationLevel::Malicious => "malicious"@,
            ReputationLevel::Unknown => "unknown"@,
        }
    }

    pub fn as_str(&self) -> (s: &'static str)
        ensures
            s@ == self.name(),
    {
        match self {
            ReputationLevel::Known => "known",
            ReputationLevel::Suspicious => "suspicious",
            ReputationLevel::Malicious => "malicious",
            ReputationLevel::Unknown => "unknown",
        }
    }
}

/// The verdict of one assessor on one object.  `confidence` is in
/// millionths (`CONFIDENCE_ONE` is certainty); `assessed_at` is in
/// microseconds since the Unix epoch.
#[derive(Debug, Clone)]
pub struct AssessmentResult {
    pub object_id: String,
    pub trust: TrustLevel,
    pub integrity: IntegrityLevel,
    pub confidence: u32,
    pub risk: RiskLevel,
    pub reputation: ReputationLevel,
    pub assessed_at: i64,
    pub assessor: String,
}

impl AssessmentResult {
    /// A result with every level unknown, no risk and no confidence,
    /// stamped with the current time.
    pub fn new(object_id: &str, assessor: &str) -> (r: AssessmentResult)
        ensures
            r.object_id@ == object_id@,
            r.assessor@ == assessor@,
            r.trust == TrustLevel::Unknown,
            r.integrity == IntegrityLevel::Unknown,
            r.confidence == 0,
            r.risk == RiskLevel::NoRisk,
            r.reputation == ReputationLevel::Unknown,
    {
        AssessmentResult {
            object_id: object_id.to_owned(),
            trust: TrustLevel::Unknown,
            integrity: IntegrityLevel::Unknown,
            confidence: 0,
            risk: RiskLevel::NoRisk,
            reputation: ReputationLevel::Unknown,
            assessed_at: now_micros(),
            assessor: assessor.to_owned(),
        }
    }

    /// A copy of the result.
    pub fn duplicate(&self) -> (r: AssessmentResult)
        ensures
            r == *self,
    {
        AssessmentResult {
            object_id: self.object_id.clone(),
            trust: self.trust,
            integrity: self.integrity,
            confidence: self.confidence,
            risk: self.risk,
            reputation: self.reputation,
            assessed_at: self.assessed_at,
            assessor: self.assessor.clone(),
        }
    }

    pub fn with_trust(self, trust: TrustLevel) -> (r: AssessmentResult)
        ensures
            r == (AssessmentResult { trust, ..self }),
    {
        AssessmentResult { trust, ..self }
    }

    pub fn with_integrity(self, integrity: IntegrityLevel) -> (r: AssessmentResult)
        ensures
            r == (AssessmentResult { integrity, ..self }),
    {
        AssessmentResult { integrity, ..self }
    }

    /// Sets the confidence (in millionths), clamped to `0 ..= CONFIDENCE_ONE`.
    pub fn with_confidence(self, confidence: i64) -> (r: AssessmentResult)
        ensures
            r == (AssessmentResult { confidence: clamp_confidence(confidence as int), ..self }),
    {
        let c = clamped_confidence(confidence);
        AssessmentResult { confidence: c, ..self }
    }

    pub fn with_risk(self, risk: RiskLevel) -> (r: AssessmentResult)
        ensures
            r == (AssessmentResult { risk, ..self }),
    {
        AssessmentResult { risk, ..self }
    }

    pub fn with_reputation(self, reputation: ReputationLevel) -> (r: AssessmentResult)
        ensures
            r == (AssessmentResult { reputation, ..self }),
    {
        AssessmentResult { reputation, ..self }
    }
}

} // verus!
