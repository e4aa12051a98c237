use vstd::prelude::*;
use crate::text::{owned, str_eq};
use crate::threat::{duplicate_strings, strings_view};

verus! {

/// A rule that raises a correlation when enough evidence of the required
/// types, with enough confidence and assessed risk, has been collected.
/// `min_confidence` is in millionths.
pub struct EvidenceCorrelationRule {
    pub name: String,
    pub description: String,
    pub enabled: bool,
    pub requires: Vec<String>,
    pub min_evidence: usize,
    pub min_confidence: u32,
    pub min_assessment_risk: u32,
    pub time_window_seconds: i64,
    pub severity: String,
    pub mitre_techniques: Vec<String>,
    pub recommended_response: String,
}

/// The mathematical content of an [`EvidenceCorrelationRule`].
#[verifier::ext_equal]
pub struct EvidenceRuleModel {
    pub name: Seq<char>,
    pub description: Seq<char>,
    pub enabled: bool,
    pub requires: Seq<Seq<char>>,
    pub min_evidence: usize,
    pub min_confidence: u32,
    pub min_assessment_risk: u32,
    pub time_window_seconds: i64,
    pub severity: Seq<char>,
    pub mitre_techniques: Seq<Seq<char>>,
    pub recommended_response: Seq<char>,
}

impl View for EvidenceCorrelationRule {
    type V = EvidenceRuleModel;

    open spec fn view(&self) -> EvidenceRuleModel {
        EvidenceRuleModel {
            name: self.name@,
            description: self.description@,
            enabled: self.enabled,
            requires: strings_view(self.requires@),
            min_evidence: self.min_evidence,
            min_confidence: self.min_confidence,
            min_assessment_risk: self.min_assessment_risk,
            time_window_seconds: self.time_window_seconds,
            severity: self.severity@,
            mitre_techniques: strings_view(self.mitre_techniques@),
            recommended_response: self.recommended_response@,
        }
    }
}

impl EvidenceCorrelationRule {
    pub fn duplicate(&self) -> (r: EvidenceCorrelationRule)
        ensures
            r@ == self@,
    {
        EvidenceCorrelationRule {
            name: self.name.clone(),
            description: self.description.clone(),
            enabled: self.enabled,
            requires: duplicate_strings(&self.requires),
            min_evidence: self.min_evidence,
            min_confidence: self.min_confidence,
            min_assessment_risk: self.min_assessment_risk,
            time_window_seconds: self.time_window_seconds,
            severity: self.severity.clone(),
            mitre_techniques: duplicate_strings(&self.mitre_techniques),
            recommended_response: self.recommended_response.clone(),
        }
    }
}

/// The views of a sequence of rules.
pub open spec fn evidence_rules_view(v: Seq<EvidenceCorrelationRule>) -> Seq<EvidenceRuleModel> {
    Seq::new(v.len(), |i: int| v[i]@)
}

/// The views of a sequence of rule references.
pub open spec fn rule_refs_view(v: Seq<&EvidenceCorrelationRule>) -> Seq<EvidenceRuleModel> {
    Seq::new(v.len(), |i: int| v[i]@)
}

/// The enabled rules, in order.
pub open spec fn enabled_only(rules: Seq<EvidenceRuleModel>) -> Seq<EvidenceRuleModel>
    decreases rules.len(),
{
    if rules.len() == 0 {
        rules
    } else if rules.last().enabled {
        enabled_only(rules.drop_last()).push(rules.last())
    } else {
        enabled_only(rules.drop_last())
    }
}

/// The rule set of the correlator.
pub struct CorrelationRuleConfig {
    pub rules: Vec<EvidenceCorrelationRule>,
}

/// A rule as the built-in rule set writes it.
pub open spec fn rule_model(
    name: Seq<char>,
    description: Seq<char>,
    required_types: Seq<Seq<char>>,
    min_evidence: usize,
    min_confidence: u32,
    min_assessment_risk: u32,
    time_window_seconds: i64,
    severity: Seq<char>,
    mitre_techniques: Seq<Seq<char>>,
    recommended_response: Seq<char>,
) -> EvidenceRuleModel {
    EvidenceRuleModel {
        name,
        description,
        enabled: true,
        requires: required_types,
        min_evidence,
        min_confidence,
        min_assessment_risk,
        time_window_seconds,
        severity,
        mitre_techniques,
        recommended_response,
    }
}

/// The built-in rule set.
pub open spec fn default_evidence_rules() -> Seq<EvidenceRuleModel> {
    seq![
        rule_model("kernel_rootkit"@,
            "Detects kernel rootkit: hidden process + kernel hook + hidden module"@,
            seq!["HiddenProcess"@, "KernelHook"@, "HiddenModule"@], 3, 950_000, 70, 300, "critical"@,
            seq!["T1014"@, "T1055"@],
            "Isolate host immediately. Collect forensic snapshot. Kill malicious process."@),
        rule_model("privilege_escalation_chain"@,
            "Detects privilege escalation followed by persistence"@,
            seq!["ProcessIntegrity"@, "PersistenceIntegrity"@], 2, 800_000, 50, 600, "high"@,
            seq!["T1068"@, "T1543"@],
            "Investigate process tree. Check for unauthorized service creation."@),
        rule_model("network_exfiltration"@,
            "Detects potential data exfiltration via suspicious network activity"@,
            seq!["NetworkIntegrity"@, "ProcessIntegrity"@], 2, 700_000, 40, 300, "high"@,
            seq!["T1041"@, "T1048"@],
            "Monitor network traffic. Review process network connections."@),
        rule_model("file_tampering"@,
            "Detects critical file modification with integrity violations"@,
            seq!["FileIntegrity"@, "PersistenceIntegrity"@], 2, 750_000, 60, 300, "high"@,
            seq!["T1565"@, "T1542"@],
            "Restore file from backup. Check for persistence mechanisms."@),
        rule_model("memory_manipulation"@,
            "Detects suspicious memory region modifications"@,
            seq!["MemoryIntegrity"@, "ProcessIntegrity"@], 2, 800_000, 50, 300, "high"@,
            seq!["T1055"@, "T1620"@],
            "Analyze process memory. Check for code injection."@),
        rule_model("multi_indicator_anomaly"@,
            "Multiple evidence types from same source indicating compromise"@,
            Seq::empty(), 3, 600_000, 30, 600, "medium"@,
            seq!["T1497"@],
            "Enhanced monitoring. Review all related evidence and assessments."@),
        rule_model("suspicious_persistence"@,
            "Suspicious persistence mechanism detected"@,
            seq!["PersistenceIntegrity"@], 1, 700_000, 40, 300, "medium"@,
            seq!["T1543"@, "T1547"@],
            "Review persistence locations. Verify service integrity."@),
    ]
}

/// Owned copies of string slices.
fn string_list(items: &[&str]) -> (r: Vec<String>)
    ensures
        strings_view(r@) == Seq::new(items@.len(), |i: int| items@[i]@),
{
    let mut r: Vec<String> = Vec::new();
    let mut i: usize = 0;
    while i < items.len()
        invariant
            i <= items@.len(),
            r@.len() == i,
            forall|k: int| 0 <= k < i ==> r@[k]@ == items@[k]@,
        decreases items.len() - i,
    {
        r.push(owned(items[i]));
        i += 1;
    }
    assert(strings_view(r@) =~= Seq::new(items@.len(), |i: int| items@[i]@));
    r
}

/// An enabled rule made of its parts.
fn make_rule(
    name: &str,
    description: &str,
    required_types: &[&str],
    min_evidence: usize,
    min_confidence: u32,
    min_assessment_risk: u32,
    time_window_seconds: i64,
    severity: &str,
    mitre_techniques: &[&str],
    recommended_response: &str,
) -> (r: EvidenceCorrelationRule)
    ensures
        r@ == rule_model(name@, description@, Seq::new(required_types@.len(), |i: int| required_types@[i]@), min_evidence,
            min_confidence, min_assessment_risk, time_window_seconds, severity@,
            Seq::new(mitre_techniques@.len(), |i: int| mitre_techniques@[i]@), recommended_response@),
{
    EvidenceCorrelationRule {
        name: owned(name),
        description: owned(description),
        enabled: true,
        requires: string_list(required_types),
        min_evidence,
        min_confidence,
        min_assessment_risk,
        time_window_seconds,
        severity: owned(severity),
        mitre_techniques: string_list(mitre_techniques),
        recommended_response: owned(recommended_response),
    }
}

impl CorrelationRuleConfig {
    /// The built-in rule set.
    pub fn load_default() -> (c: CorrelationRuleConfig)
        ensures
            evidence_rules_view(c.rules@) == default_evidence_rules(),
    {
        let ghost d = default_evidence_rules();
        let mut rules: Vec<EvidenceCorrelationRule> = Vec::new();
        let r0 = make_rule("kernel_rootkit",
            "Detects kernel rootkit: hidden process + kernel hook + hidden module",
            &["HiddenProcess", "KernelHook", "HiddenModule"], 3, 950_000, 70, 300, "critical",
            &["T1014", "T1055"],
            "Isolate host immediately. Collect forensic snapshot. Kill malicious process.");
        assert(r0@ =~~= d[0]);
        rules.push(r0);
        let r1 = make_rule("privilege_escalation_chain",
            "Detects privilege escalation followed by persistence",
            &["ProcessIntegrity", "PersistenceIntegrity"], 2, 800_000, 50, 600, "high",
            &["T1068", "T1543"],
            "Investigate process tree. Check for unauthorized service creation.");
        assert(r1@ =~~= d[1]);
        rules.push(r1);
        let r2 = make_rule("network_exfiltration",
            "Detects potential data exfiltration via suspicious network activity",
            &["NetworkIntegrity", "ProcessIntegrity"], 2, 700_000, 40, 300, "high",
            &["T1041", "T1048"],
            "Monitor network traffic. Review process network connections.");
        assert(r2@ =~~= d[2]);
        rules.push(r2);
        let r3 = make_rule("file_tampering",
            "Detects critical file modification with integrity violations",
            &["FileIntegrity", "PersistenceIntegrity"], 2, 750_000, 60, 300, "high",
            &["T1565", "T1542"],
            "Restore file from backup. Check for persistence mechanisms.");
        assert(r3@ =~~= d[3]);
        rules.push(r3);
        let r4 = make_rule("memory_manipulation",
            "Detects suspicious memory region modifications",
            &["MemoryIntegrity", "ProcessIntegrity"], 2, 800_000, 50, 300, "high",
            &["T1055", "T1620"],
            "Analyze process memory. Check for code injection.");
        assert(r4@ =~~= d[4]);
        rules.push(r4);
        let r5 = make_rule("multi_indicator_anomaly",
            "Multiple evidence types from same source indicating compromise",
            &[], 3, 600_000, 30, 600, "medium",
            &["T1497"],
            "Enhanced monitoring. Review all related evidence and assessments.");
        assert(r5@ =~~= d[5]);
        rules.push(r5);
        let r6 = make_rule("suspicious_persistence",
            "Suspicious persistence mechanism detected",
            &["PersistenceIntegrity"], 1, 700_000, 40, 300, "medium",
            &["T1543", "T1547"],
            "Review persistence locations. Verify service integrity.");
        assert(r6@ =~~= d[6]);
        rules.push(r6);
        let c = CorrelationRuleConfig { rules };
        assert(evidence_rules_view(c.rules@) =~~= default_evidence_rules());
        c
    }

    /// The enabled rules, in order.
    pub fn enabled_rules(&self) -> (r: Vec<&EvidenceCorrelationRule>)
        ensures
            rule_refs_view(r@) == enabled_only(evidence_rules_view(self.rules@)),
    {
        let ghost all = evidence_rules_view(self.rules@);
        let mut r: Vec<&EvidenceCorrelationRule> = Vec::new();
        let mut i: usize = 0;
        while i < self.rules.len()
            invariant
                i <= self.rules@.len(),
                all == evidence_rules_view(self.rules@),
                rule_refs_view(r@) == enabled_only(all.take(i as int)),
            decreases self.rules.len() - i,
        {
            assert(all.take(i + 1).drop_last() =~= all.take(i as int));
            if self.rules[i].enabled {
                let ghost before = r@;
                r.push(&self.rules[i]);
                assert(rule_refs_view(r@) =~= rule_refs_view(before).push(all[i as int]));
            }
            i += 1;
        }
        assert(all.take(self.rules.len() as int) =~= all);
        r
    }

    /// The first rule named `name`.
    pub fn find_rule(&self, name: &str) -> (r: Option<&EvidenceCorrelationRule>)
        ensures
            r matches Some(x) ==> exists|i: int| 0 <= i < self.rules@.len() && self.rules@[i]@ == x@
                && x.name@ == name@ && forall|j: int| 0 <= j < i ==> self.rules@[j].name@ != name@,
            r is None ==> forall|j: int| 0 <= j < self.rules@.len() ==> self.rules@[j].name@ != name@,
    {
        let mut i: usize = 0;
        while i < self.rules.len()
            invariant
                i <= self.rules@.len(),
                forall|j: int| 0 <= j < i ==> self.rules@[j].name@ != name@,
            decreases self.rules.len() - i,
        {
            if str_eq(self.rules[i].name.as_str(), name) {
                return Some(&self.rules[i]);
            }
            i += 1;
        }
        None
    }
}

impl Default for CorrelationRuleConfig {
    fn default() -> (c: CorrelationRuleConfig)
        ensures
            evidence_rules_view(c.rules@) == default_evidence_rules(),
    {
        CorrelationRuleConfig::load_default()
    }
}

} // verus!
