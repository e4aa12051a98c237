use vstd::prelude::*;
use crate::clock::{new_id, now_micros};
use crate::evidence::contains_string;
use crate::evidence_rules::{
    enabled_only, evidence_rules_view, CorrelationRuleConfig, EvidenceCorrelationRule, EvidenceRuleModel,
};
use crate::graph::{incident_prefix, EdgeModel, EdgeType, GraphNode, InMemoryGraph, NodeModel};
use crate::grouping::{distinct, distinct_keys};
use crate::text::{decimal, owned, push_decimal, push_str, str_eq};
use crate::threat::{duplicate_strings, strings_view};
use crate::value::{store, DataMap, Value, ValueModel};

verus! {

/// One piece of evidence as the correlator sees it.  `confidence` is in
/// millionths; `timestamp` is in microseconds since the Unix epoch;
/// `assessment_risk` is the risk score of the assessment behind it.
pub struct EvidenceNode {
    pub evidence_id: String,
    pub object_id: String,
    pub evidence_type: String,
    pub severity: String,
    pub confidence: u32,
    pub source: String,
    pub timestamp: i64,
    pub assessment_risk: Option<u32>,
}

/// The mathematical content of an [`EvidenceNode`].
pub struct EvidenceNodeModel {
    pub evidence_id: Seq<char>,
    pub object_id: Seq<char>,
    pub evidence_type: Seq<char>,
    pub severity: Seq<char>,
    pub confidence: u32,
    pub source: Seq<char>,
    pub timestamp: i64,
    pub assessment_risk: Option<u32>,
}

impl View for EvidenceNode {
    type V = EvidenceNodeModel;

    open spec fn view(&self) -> EvidenceNodeModel {
        EvidenceNodeModel {
            evidence_id: self.evidence_id@,
            object_id: self.object_id@,
            evidence_type: self.evidence_type@,
            severity: self.severity@,
            confidence: self.confidence,
            source: self.source@,
            timestamp: self.timestamp,
            assessment_risk: self.assessment_risk,
        }
    }
}

impl EvidenceNode {
    pub fn duplicate(&self) -> (r: EvidenceNode)
        ensures
            r@ == self@,
    {
        EvidenceNode {
            evidence_id: self.evidence_id.clone(),
            object_id: self.object_id.clone(),
            evidence_type: self.evidence_type.clone(),
            severity: self.severity.clone(),
            confidence: self.confidence,
            source: self.source.clone(),
            timestamp: self.timestamp,
            assessment_risk: self.assessment_risk,
        }
    }
}

/// The views of a sequence of evidence nodes.
pub open spec fn nodes_of(v: Seq<EvidenceNode>) -> Seq<EvidenceNodeModel> {
    Seq::new(v.len(), |i: int| v[i]@)
}

/// A correlation raised by a rule.  `confidence` is in millionths;
/// `timestamp` is in microseconds since the Unix epoch.
pub struct CorrelatedEvidence {
    pub id: u128,
    pub evidence_ids: Vec<String>,
    pub object_ids: Vec<String>,
    pub rule_name: String,
    pub severity: String,
    pub confidence: u32,
    pub title: String,
    pub description: String,
    pub timestamp: i64,
    pub relationships: Vec<String>,
    pub mitre_techniques: Vec<String>,
}

/// What a correlation says, apart from its random id and its time.
pub struct CorrelatedModel {
    pub evidence_ids: Seq<Seq<char>>,
    pub object_ids: Seq<Seq<char>>,
    pub rule_name: Seq<char>,
    pub severity: Seq<char>,
    pub confidence: u32,
    pub title: Seq<char>,
    pub description: Seq<char>,
    pub relationships: Seq<Seq<char>>,
    pub mitre_techniques: Seq<Seq<char>>,
}

impl CorrelatedEvidence {
    /// What the correlation says, apart from its id and time.
    pub open spec fn essence(&self) -> CorrelatedModel {
        CorrelatedModel {
            evidence_ids: strings_view(self.evidence_ids@),
            object_ids: strings_view(self.object_ids@),
            rule_name: self.rule_name@,
            severity: self.severity@,
            confidence: self.confidence,
            title: self.title@,
            description: self.description@,
            relationships: strings_view(self.relationships@),
            mitre_techniques: strings_view(self.mitre_techniques@),
        }
    }

    pub fn duplicate(&self) -> (r: CorrelatedEvidence)
        ensures
            r.essence() == self.essence(),
            r.id == self.id,
            r.timestamp == self.timestamp,
    {
        CorrelatedEvidence {
            id: self.id,
            evidence_ids: duplicate_strings(&self.evidence_ids),
            object_ids: duplicate_strings(&self.object_ids),
            rule_name: self.rule_name.clone(),
            severity: self.severity.clone(),
            confidence: self.confidence,
            title: self.title.clone(),
            description: self.description.clone(),
            timestamp: self.timestamp,
            relationships: duplicate_strings(&self.relationships),
            mitre_techniques: duplicate_strings(&self.mitre_techniques),
        }
    }
}

/// The essences of a sequence of correlations.
pub open spec fn essences_of(v: Seq<CorrelatedEvidence>) -> Seq<CorrelatedModel> {
    Seq::new(v.len(), |i: int| v[i].essence())
}

/// Whether evidence of type `t` counts for a rule that requires `requires`
/// (any type when the list is empty).
pub open spec fn type_counts(required: Seq<Seq<char>>, t: Seq<char>) -> bool {
    required.len() == 0 || required.contains(t)
}

/// The evidence that counts for a rule, in store order.
pub open spec fn matching(store: Seq<EvidenceNodeModel>, required: Seq<Seq<char>>) -> Seq<EvidenceNodeModel>
    decreases store.len(),
{
    if store.len() == 0 {
        store
    } else if type_counts(required, store.last().evidence_type) {
        matching(store.drop_last(), required).push(store.last())
    } else {
        matching(store.drop_last(), required)
    }
}

/// The sum of the confidences.
pub open spec fn confidence_sum(s: Seq<EvidenceNodeModel>) -> nat
    decreases s.len(),
{
    if s.len() == 0 {
        0
    } else {
        (confidence_sum(s.drop_last()) + s.last().confidence) as nat
    }
}

/// The highest assessed risk, 0 when none is known.
pub open spec fn max_risk(s: Seq<EvidenceNodeModel>) -> u32
    decreases s.len(),
{
    if s.len() == 0 {
        0
    } else {
        let m = max_risk(s.drop_last());
        match s.last().assessment_risk {
            Some(r) => if r > m { r } else { m },
            None => m,
        }
    }
}

/// The mean confidence, rounded down; 0 for no evidence.
pub open spec fn mean_confidence(s: Seq<EvidenceNodeModel>) -> nat {
    if s.len() == 0 {
        0
    } else {
        confidence_sum(s) / s.len()
    }
}

/// Whether some of the evidence has type `t`.
pub open spec fn has_type(s: Seq<EvidenceNodeModel>, t: Seq<char>) -> bool {
    exists|j: int| 0 <= j < s.len() && s[j].evidence_type == t
}

/// Whether every required type has some of the evidence.
pub open spec fn types_covered(s: Seq<EvidenceNodeModel>, required: Seq<Seq<char>>) -> bool {
    forall|k: int| 0 <= k < required.len() ==> has_type(s, #[trigger] required[k])
}

/// Whether a rule fires on the stored evidence: there is at least the
/// minimum amount of evidence in all and of the required types, each
/// required type has some of it, the mean confidence of that evidence
/// reaches the minimum, and so does the highest assessed risk among it.
pub open spec fn rule_fires(store: Seq<EvidenceNodeModel>, rule: EvidenceRuleModel) -> bool {
    let m = matching(store, rule.requires);
    &&& store.len() >= rule.min_evidence
    &&& m.len() >= rule.min_evidence
    &&& types_covered(m, rule.requires)
    &&& confidence_sum(m) >= rule.min_confidence * m.len()
    &&& max_risk(m) >= rule.min_assessment_risk
}

/// How an edge is described in a correlation.
pub open spec fn edge_text(e: EdgeModel) -> Seq<char> {
    e.source + " -> "@ + e.target + " ("@ + e.edge_type.name() + ")"@
}

/// The edges leaving `id`, in insertion order.
pub open spec fn outgoing(edges: Seq<EdgeModel>, id: Seq<char>) -> Seq<EdgeModel> {
    let ix = incident_prefix(edges, id, true, edges.len() as int);
    Seq::new(ix.len(), |k: int| edges[ix[k]])
}

/// The descriptions of the edges leaving each of `ids`, in order.
pub open spec fn relationship_texts(edges: Seq<EdgeModel>, ids: Seq<Seq<char>>) -> Seq<Seq<char>>
    decreases ids.len(),
{
    if ids.len() == 0 {
        Seq::empty()
    } else {
        let out = outgoing(edges, ids.last());
        relationship_texts(edges, ids.drop_last()) + Seq::new(out.len(), |k: int| edge_text(out[k]))
    }
}

/// The ids of the evidence.
pub open spec fn evidence_ids_of(s: Seq<EvidenceNodeModel>) -> Seq<Seq<char>> {
    Seq::new(s.len(), |i: int| s[i].evidence_id)
}

/// The object ids of the evidence.
pub open spec fn object_ids_of(s: Seq<EvidenceNodeModel>) -> Seq<Seq<char>> {
    Seq::new(s.len(), |i: int| s[i].object_id)
}

/// The correlation a firing rule raises.
pub open spec fn raised(store: Seq<EvidenceNodeModel>, edges: Seq<EdgeModel>, rule: EvidenceRuleModel) -> CorrelatedModel {
    let m = matching(store, rule.requires);
    CorrelatedModel {
        evidence_ids: evidence_ids_of(m),
        object_ids: distinct_keys(object_ids_of(m)),
        rule_name: rule.name,
        severity: rule.severity,
        confidence: mean_confidence(m) as u32,
        title: rule.name + ": "@ + rule.description,
        description: rule.description,
        relationships: relationship_texts(edges, evidence_ids_of(m)),
        mitre_techniques: rule.mitre_techniques,
    }
}

/// The correlations raised by the rules that fire, in rule order.
pub open spec fn fired(store: Seq<EvidenceNodeModel>, edges: Seq<EdgeModel>, rules: Seq<EvidenceRuleModel>) -> Seq<CorrelatedModel>
    decreases rules.len(),
{
    if rules.len() == 0 {
        Seq::empty()
    } else if rule_fires(store, rules.last()) {
        fired(store, edges, rules.drop_last()).push(raised(store, edges, rules.last()))
    } else {
        fired(store, edges, rules.drop_last())
    }
}

/// Whether two timestamps (microseconds) are at most `window_secs` whole
/// seconds apart.
pub open spec fn within_seconds(t1: i64, t2: i64, window_secs: int) -> bool {
    let d = t2 - t1;
    let whole = if d >= 0 { d / 1_000_000 } else { -((-d) / 1_000_000) };
    -window_secs <= whole <= window_secs
}

/// The edges linking evidence `i` to each later evidence `j`, `j` from `i +
/// 1` up to `n`: a `Connected` edge when both concern the same object, an
/// `Opened` edge when both come from the same source within five minutes.
pub open spec fn row_edges(s: Seq<EvidenceNodeModel>, i: int, n: int) -> Seq<EdgeModel>
    decreases n - i,
{
    if n <= i + 1 {
        Seq::empty()
    } else {
        let prev = row_edges(s, i, n - 1);
        let a = s[i];
        let b = s[n - 1];
        let connected = if a.object_id == b.object_id && a.evidence_id != b.evidence_id {
            seq![EdgeModel { source: a.evidence_id, target: b.evidence_id, edge_type: EdgeType::Connected, properties: Seq::empty() }]
        } else {
            Seq::empty()
        };
        let opened = if a.source == b.source && a.evidence_id != b.evidence_id && within_seconds(a.timestamp, b.timestamp, 300) {
            seq![EdgeModel { source: a.evidence_id, target: b.evidence_id, edge_type: EdgeType::Opened, properties: Seq::empty() }]
        } else {
            Seq::empty()
        };
        prev + connected + opened
    }
}

/// The edges that linking all pairs of the first `m` rows adds, row by row.
pub open spec fn pair_edges(s: Seq<EvidenceNodeModel>, m: int) -> Seq<EdgeModel>
    decreases m,
{
    if m <= 0 {
        Seq::empty()
    } else {
        pair_edges(s, m - 1) + row_edges(s, m - 1, s.len() as int)
    }
}

/// The graph node made for a piece of evidence.
pub open spec fn evidence_graph_node(e: EvidenceNodeModel) -> NodeModel {
    NodeModel {
        id: e.evidence_id,
        label: e.evidence_type + ": "@ + e.source,
        node_type: e.evidence_type,
        properties: store(store(store(store(Seq::empty(),
            "object_id"@, ValueModel::Text(e.object_id)),
            "severity"@, ValueModel::Text(e.severity)),
            "confidence"@, ValueModel::Json(decimal(e.confidence as nat))),
            "source"@, ValueModel::Text(e.source)),
    }
}

/// Collects evidence, links it in a graph, and raises correlations by rule.
pub struct EvidenceCorrelator {
    graph: InMemoryGraph,
    evidence_store: Vec<EvidenceNode>,
    rule_config: CorrelationRuleConfig,
    correlated: Vec<CorrelatedEvidence>,
}

impl EvidenceCorrelator {
    /// The collected evidence, in order.
    pub closed spec fn store_view(&self) -> Seq<EvidenceNodeModel> {
        nodes_of(self.evidence_store@)
    }

    /// The rules, in order.
    pub closed spec fn rules_view(&self) -> Seq<EvidenceRuleModel> {
        evidence_rules_view(self.rule_config.rules@)
    }

    /// The correlations raised by the last run.
    pub closed spec fn correlated_view(&self) -> Seq<CorrelatedModel> {
        essences_of(self.correlated@)
    }

    /// The nodes of the evidence graph.
    pub closed spec fn graph_nodes(&self) -> Seq<NodeModel> {
        self.graph.node_models()
    }

    /// The edges of the evidence graph.
    pub closed spec fn graph_edges(&self) -> Seq<EdgeModel> {
        self.graph.edge_models()
    }

    /// A correlator with the built-in rules and nothing collected.
    pub fn new() -> (c: EvidenceCorrelator)
        ensures
            c.store_view().len() == 0,
            c.rules_view() == crate::evidence_rules::default_evidence_rules(),
            c.correlated_view().len() == 0,
            c.graph_nodes().len() == 0,
            c.graph_edges().len() == 0,
    {
        let c = EvidenceCorrelator {
            graph: InMemoryGraph::new(),
            evidence_store: Vec::new(),
            rule_config: CorrelationRuleConfig::load_default(),
            correlated: Vec::new(),
        };
        assert(c.store_view() =~= Seq::<EvidenceNodeModel>::empty());
        assert(c.correlated_view() =~= Seq::<CorrelatedModel>::empty());
        c
    }

    /// A correlator with the given rules and nothing collected.
    pub fn with_rules(config: CorrelationRuleConfig) -> (c: EvidenceCorrelator)
        ensures
            c.store_view().len() == 0,
            c.rules_view() == evidence_rules_view(config.rules@),
            c.correlated_view().len() == 0,
            c.graph_nodes().len() == 0,
            c.graph_edges().len() == 0,
    {
        let c = EvidenceCorrelator {
            graph: InMemoryGraph::new(),
            evidence_store: Vec::new(),
            rule_config: config,
            correlated: Vec::new(),
        };
        assert(c.store_view() =~= Seq::<EvidenceNodeModel>::empty());
        assert(c.correlated_view() =~= Seq::<CorrelatedModel>::empty());
        c
    }

    /// Collects a piece of evidence and adds (or replaces) its node in the
    /// graph.  The node's confidence property is the decimal number of
    /// millionths.
    pub fn add_evidence(&mut self, evidence: EvidenceNode)
        ensures
            final(self).store_view() == old(self).store_view().push(evidence@),
            final(self).graph_edges() == old(self).graph_edges(),
            forall|i: int| 0 <= i < old(self).graph_nodes().len() && old(self).graph_nodes()[i].id == evidence@.evidence_id
                ==> final(self).graph_nodes() == old(self).graph_nodes().update(i, evidence_graph_node(evidence@)),
            (forall|i: int| 0 <= i < old(self).graph_nodes().len() ==> old(self).graph_nodes()[i].id != evidence@.evidence_id)
                ==> final(self).graph_nodes() == old(self).graph_nodes().push(evidence_graph_node(evidence@)),
            final(self).rules_view() == old(self).rules_view(),
            final(self).correlated_view() == old(self).correlated_view(),
    {
        let mut properties = DataMap::new();
        properties.insert(owned("object_id"), Value::String(evidence.object_id.clone()));
        properties.insert(owned("severity"), Value::String(evidence.severity.clone()));
        let mut conf = String::new();
        push_decimal(&mut conf, evidence.confidence as u64);
        assert(conf@ =~= decimal(evidence.confidence as nat));
        properties.insert(owned("confidence"), Value::Json(conf));
        properties.insert(owned("source"), Value::String(evidence.source.clone()));
        let mut label = evidence.evidence_type.clone();
        push_str(&mut label, ": ");
        push_str(&mut label, evidence.source.as_str());
        let node = GraphNode {
            id: evidence.evidence_id.clone(),
            label,
            node_type: evidence.evidence_type.clone(),
            properties,
        };
        assert(node@ == evidence_graph_node(evidence@));
        self.graph.add_node(node);
        let ghost before = self.evidence_store@;
        self.evidence_store.push(evidence);
        assert(nodes_of(self.evidence_store@) =~= nodes_of(before).push(self.evidence_store@.last()@));
    }

    fn in_window(t1: i64, t2: i64) -> (b: bool)
        ensures
            b == within_seconds(t1, t2, 300),
    {
        let d: i128 = t2 as i128 - t1 as i128;
        let whole: i128 = if d >= 0 { d / 1_000_000 } else { -((-d) / 1_000_000) };
        -300 <= whole && whole <= 300
    }

    /// Links every pair of collected evidence, earlier to later: same
    /// object gives a `Connected` edge, same source within five minutes an
    /// `Opened` edge.
    pub fn build_relationships(&mut self)
        ensures
            final(self).graph_edges() == old(self).graph_edges() + pair_edges(old(self).store_view(), old(self).store_view().len() as int),
            final(self).graph_nodes() == old(self).graph_nodes(),
            final(self).store_view() == old(self).store_view(),
            final(self).rules_view() == old(self).rules_view(),
            final(self).correlated_view() == old(self).correlated_view(),
    {
        let ghost s = self.store_view();
        let ghost e0 = self.graph_edges();
        let n = self.evidence_store.len();
        let mut i: usize = 0;
        while i < n
            invariant
                i <= n,
                n == s.len(),
                s == self.store_view(),
                self.graph_edges() == e0 + pair_edges(s, i as int),
                self.graph_nodes() == old(self).graph_nodes(),
                self.rules_view() == old(self).rules_view(),
                self.correlated_view() == old(self).correlated_view(),
            decreases n - i,
        {
            let ghost row_start = self.graph_edges();
            let mut j: usize = i + 1;
            while j < n
                invariant
                    i < n,
                    i + 1 <= j <= n,
                    n == s.len(),
                    s == self.store_view(),
                    self.graph_edges() == row_start + row_edges(s, i as int, j as int),
                    row_start == e0 + pair_edges(s, i as int),
                    self.graph_nodes() == old(self).graph_nodes(),
                    self.rules_view() == old(self).rules_view(),
                    self.correlated_view() == old(self).correlated_view(),
                decreases n - j,
            {
                let ghost before = self.graph_edges();
                let same_object = str_eq(self.evidence_store[i].object_id.as_str(), self.evidence_store[j].object_id.as_str());
                let same_id = str_eq(self.evidence_store[i].evidence_id.as_str(), self.evidence_store[j].evidence_id.as_str());
                let same_source = str_eq(self.evidence_store[i].source.as_str(), self.evidence_store[j].source.as_str());
                let close = Self::in_window(self.evidence_store[i].timestamp, self.evidence_store[j].timestamp);
                let a = self.evidence_store[i].evidence_id.clone();
                let b = self.evidence_store[j].evidence_id.clone();
                assert(s[i as int] == self.evidence_store@[i as int]@);
                assert(s[j as int] == self.evidence_store@[j as int]@);
                if same_object && !same_id {
                    self.graph.connect(a.as_str(), b.as_str(), EdgeType::Connected);
                }
                let ghost mid = self.graph_edges();
                if same_source && !same_id && close {
                    self.graph.connect(a.as_str(), b.as_str(), EdgeType::Opened);
                }
                proof {
                    let conn = if same_object && !same_id {
                        seq![EdgeModel { source: a@, target: b@, edge_type: EdgeType::Connected, properties: Seq::empty() }]
                    } else {
                        Seq::empty()
                    };
                    let op = if same_source && !same_id && close {
                        seq![EdgeModel { source: a@, target: b@, edge_type: EdgeType::Opened, properties: Seq::empty() }]
                    } else {
                        Seq::empty()
                    };
                    assert(mid =~= before + conn);
                    assert(self.graph_edges() =~= before + conn + op);
                    assert(row_edges(s, i as int, j + 1) == row_edges(s, i as int, j as int) + conn + op);
                    assert(self.graph_edges() =~= row_start + row_edges(s, i as int, j + 1));
                }
                j += 1;
            }
            assert(pair_edges(s, i + 1) == pair_edges(s, i as int) + row_edges(s, i as int, n as int));
            assert(self.graph_edges() =~= e0 + pair_edges(s, i + 1));
            i += 1;
        }
    }

    /// The collected evidence that counts for a rule, in order.
    fn matching_evidence(&self, rule: &EvidenceCorrelationRule) -> (r: Vec<EvidenceNode>)
        ensures
            nodes_of(r@) == matching(self.store_view(), rule@.requires),
    {
        let ghost s = self.store_view();
        let mut r: Vec<EvidenceNode> = Vec::new();
        let mut i: usize = 0;
        while i < self.evidence_store.len()
            invariant
                i <= self.evidence_store@.len(),
                s == self.store_view(),
                nodes_of(r@) == matching(s.take(i as int), rule@.requires),
            decreases self.evidence_store.len() - i,
        {
            let e = &self.evidence_store[i];
            assert(s.take(i + 1).drop_last() =~= s.take(i as int));
            assert(s[i as int] == e@);
            if rule.requires.len() == 0 || contains_string(&rule.requires, e.evidence_type.as_str()) {
                let ghost before = r@;
                r.push(e.duplicate());
                assert(nodes_of(r@) =~= nodes_of(before).push(e@));
            }
            i += 1;
        }
        assert(s.take(self.evidence_store.len() as int) =~= s);
        r
    }

    /// The descriptions of the edges leaving each of `ids`, in order.
    fn relationships_of(&self, ids: &Vec<String>) -> (r: Vec<String>)
        ensures
            strings_view(r@) == relationship_texts(self.graph_edges(), strings_view(ids@)),
    {
        let ghost edges = self.graph_edges();
        let ghost idv = strings_view(ids@);
        let mut r: Vec<String> = Vec::new();
        let mut i: usize = 0;
        while i < ids.len()
            invariant
                i <= ids@.len(),
                edges == self.graph_edges(),
                idv == strings_view(ids@),
                strings_view(r@) == relationship_texts(edges, idv.take(i as int)),
            decreases ids.len() - i,
        {
            let out = self.graph.get_edges_from(ids[i].as_str());
            let ghost base = r@;
            let ghost outm = outgoing(edges, ids@[i as int]@);
            assert(crate::graph::edge_refs_view(out@) == outm);
            let mut k: usize = 0;
            while k < out.len()
                invariant
                    k <= out@.len(),
                    crate::graph::edge_refs_view(out@) == outm,
                    strings_view(r@) == strings_view(base) + Seq::new(k as nat, |q: int| edge_text(outm[q])),
                decreases out.len() - k,
            {
                let e = out[k];
                let mut t = e.source.clone();
                push_str(&mut t, " -> ");
                push_str(&mut t, e.target.as_str());
                push_str(&mut t, " (");
                push_str(&mut t, e.edge_type.as_str());
                push_str(&mut t, ")");
                assert(outm[k as int] == e@);
                let ghost before = r@;
                r.push(t);
                assert(strings_view(r@) =~= strings_view(before).push(t@));
                assert(strings_view(base) + Seq::new((k + 1) as nat, |q: int| edge_text(outm[q]))
                    =~= (strings_view(base) + Seq::new(k as nat, |q: int| edge_text(outm[q]))).push(edge_text(outm[k as int])));
                k += 1;
            }
            assert(idv.take(i + 1).drop_last() =~= idv.take(i as int));
            assert(idv.take(i + 1).last() == ids@[i as int]@);
            assert(Seq::new(out@.len() as nat, |q: int| edge_text(outm[q])) =~= Seq::new(outm.len(), |k: int| edge_text(outm[k])));
            i += 1;
        }
        assert(idv.take(ids.len() as int) =~= idv);
        r
    }

    /// Whether each of the `required` types has some of the evidence `m`.
    fn covers_types(m: &Vec<EvidenceNode>, required: &Vec<String>) -> (b: bool)
        ensures
            b == types_covered(nodes_of(m@), strings_view(required@)),
    {
        let ghost mv = nodes_of(m@);
        let ghost rv = strings_view(required@);
        let mut k: usize = 0;
        while k < required.len()
            invariant
                k <= required@.len(),
                mv == nodes_of(m@),
                rv == strings_view(required@),
                forall|q: int| 0 <= q < k ==> has_type(mv, #[trigger] rv[q]),
            decreases required.len() - k,
        {
            let mut found = false;
            let mut j: usize = 0;
            while j < m.len()
                invariant
                    j <= m@.len(),
                    k < required@.len(),
                    mv == nodes_of(m@),
                    rv == strings_view(required@),
                    found == exists|q: int| 0 <= q < j && mv[q].evidence_type == rv[k as int],
                decreases m.len() - j,
            {
                assert(mv[j as int] == m@[j as int]@);
                if str_eq(m[j].evidence_type.as_str(), required[k].as_str()) {
                    found = true;
                }
                j += 1;
            }
            if !found {
                assert(!has_type(mv, rv[k as int]));
                return false;
            }
            k += 1;
        }
        true
    }

    /// Raises the correlation of one rule when it fires.
    fn apply_rule(&mut self, rule: &EvidenceCorrelationRule)
        ensures
            rule_fires(old(self).store_view(), rule@) ==> final(self).correlated_view()
                == old(self).correlated_view().push(raised(old(self).store_view(), old(self).graph_edges(), rule@)),
            !rule_fires(old(self).store_view(), rule@) ==> final(self).correlated_view() == old(self).correlated_view(),
            final(self).store_view() == old(self).store_view(),
            final(self).graph_nodes() == old(self).graph_nodes(),
            final(self).graph_edges() == old(self).graph_edges(),
            final(self).rules_view() == old(self).rules_view(),
    {
        if self.evidence_store.len() < rule.min_evidence {
            return;
        }
        let m = self.matching_evidence(rule);
        let ghost mv = nodes_of(m@);
        if m.len() < rule.min_evidence {
            return;
        }
        if !Self::covers_types(&m, &rule.requires) {
            return;
        }
        let mut sum: u128 = 0;
        let mut risk: u32 = 0;
        let mut i: usize = 0;
        while i < m.len()
            invariant
                i <= m@.len(),
                mv == nodes_of(m@),
                sum == confidence_sum(mv.take(i as int)),
                sum <= i * 4294967295,
                risk == max_risk(mv.take(i as int)),
            decreases m.len() - i,
        {
            assert(mv.take(i + 1).drop_last() =~= mv.take(i as int));
            assert(mv[i as int] == m@[i as int]@);
            sum = sum + m[i].confidence as u128;
            match m[i].assessment_risk {
                Some(r) => {
                    if r > risk {
                        risk = r;
                    }
                },
                None => {},
            }
            i += 1;
        }
        assert(mv.take(m.len() as int) =~= mv);
        let len = m.len() as u128;
        assert((rule.min_confidence as int) * (len as int) <= 4294967295 * 18446744073709551615int) by (nonlinear_arith)
            requires
                rule.min_confidence <= 4294967295,
                len <= 18446744073709551615int,
                len >= 0;
        if sum < rule.min_confidence as u128 * len {
            return;
        }
        if risk < rule.min_assessment_risk {
            return;
        }
        let avg: u128 = if len == 0 { 0 } else { sum / len };
        proof {
            if len > 0 {
                assert(sum / len <= 4294967295) by (nonlinear_arith)
                    requires
                        sum <= len * 4294967295,
                        len > 0;
            }
        }
        let confidence = avg as u32;
        let mut ids: Vec<String> = Vec::new();
        let mut objects: Vec<String> = Vec::new();
        let mut i: usize = 0;
        while i < m.len()
            invariant
                i <= m@.len(),
                mv == nodes_of(m@),
                ids@.len() == i,
                objects@.len() == i,
                forall|k: int| 0 <= k < i ==> ids@[k]@ == mv[k].evidence_id,
                forall|k: int| 0 <= k < i ==> objects@[k]@ == mv[k].object_id,
            decreases m.len() - i,
        {
            ids.push(m[i].evidence_id.clone());
            objects.push(m[i].object_id.clone());
            i += 1;
        }
        assert(strings_view(ids@) =~= evidence_ids_of(mv));
        assert(strings_view(objects@) =~= object_ids_of(mv));
        let object_ids = distinct(&objects);
        let relationships = self.relationships_of(&ids);
        let mut title = rule.name.clone();
        push_str(&mut title, ": ");
        push_str(&mut title, rule.description.as_str());
        let c = CorrelatedEvidence {
            id: new_id(),
            evidence_ids: ids,
            object_ids,
            rule_name: rule.name.clone(),
            severity: rule.severity.clone(),
            confidence,
            title,
            description: rule.description.clone(),
            timestamp: now_micros(),
            relationships,
            mitre_techniques: duplicate_strings(&rule.mitre_techniques),
        };
        assert(c.essence() == raised(self.store_view(), self.graph_edges(), rule@));
        let ghost before = self.correlated@;
        self.correlated.push(c);
        assert(essences_of(self.correlated@) =~= essences_of(before).push(c.essence()));
    }

    /// Runs all enabled rules afresh: the previous correlations are dropped,
    /// the evidence is linked again, and each enabled rule that fires
    /// raises one correlation, in rule order.  Returns copies of them.
    pub fn correlate(&mut self) -> (r: Vec<CorrelatedEvidence>)
        ensures
            final(self).graph_edges() == old(self).graph_edges() + pair_edges(old(self).store_view(), old(self).store_view().len() as int),
            final(self).correlated_view() == fired(old(self).store_view(), final(self).graph_edges(),
                enabled_only(old(self).rules_view())),
            essences_of(r@) == final(self).correlated_view(),
            final(self).store_view() == old(self).store_view(),
            final(self).graph_nodes() == old(self).graph_nodes(),
            final(self).rules_view() == old(self).rules_view(),
    {
        self.correlated = Vec::new();
        assert(self.correlated_view() =~= Seq::<CorrelatedModel>::empty());
        self.build_relationships();
        let enabled = self.rule_config.enabled_rules();
        let mut rules: Vec<EvidenceCorrelationRule> = Vec::new();
        let mut i: usize = 0;
        while i < enabled.len()
            invariant
                i <= enabled@.len(),
                rules@.len() == i,
                forall|k: int| 0 <= k < i ==> rules@[k]@ == enabled@[k]@,
            decreases enabled.len() - i,
        {
            rules.push(enabled[i].duplicate());
            i += 1;
        }
        let ghost er = enabled_only(self.rules_view());
        assert(evidence_rules_view(rules@) =~= er);
        let ghost s = self.store_view();
        let ghost edges = self.graph_edges();
        let mut i: usize = 0;
        while i < rules.len()
            invariant
                i <= rules@.len(),
                evidence_rules_view(rules@) == er,
                s == self.store_view(),
                edges == self.graph_edges(),
                self.correlated_view() == fired(s, edges, er.take(i as int)),
                self.graph_nodes() == old(self).graph_nodes(),
                self.rules_view() == old(self).rules_view(),
            decreases rules.len() - i,
        {
            self.apply_rule(&rules[i]);
            assert(er.take(i + 1).drop_last() =~= er.take(i as int));
            assert(er.take(i + 1).last() == rules@[i as int]@);
            i += 1;
        }
        assert(er.take(rules.len() as int) =~= er);
        let mut r: Vec<CorrelatedEvidence> = Vec::new();
        let mut k: usize = 0;
        while k < self.correlated.len()
            invariant
                k <= self.correlated@.len(),
                r@.len() == k,
                forall|q: int| 0 <= q < k ==> r@[q].essence() == self.correlated@[q].essence(),
            decreases self.correlated.len() - k,
        {
            r.push(self.correlated[k].duplicate());
            k += 1;
        }
        assert(essences_of(r@) =~= self.correlated_view());
        r
    }

    /// The evidence graph.
    pub fn graph(&self) -> (g: &InMemoryGraph)
        ensures
            g.node_models() == self.graph_nodes(),
            g.edge_models() == self.graph_edges(),
    {
        &self.graph
    }

    /// The correlations raised by the last run.
    pub fn correlated(&self) -> (r: &[CorrelatedEvidence])
        ensures
            essences_of(r@) == self.correlated_view(),
    {
        self.correlated.as_slice()
    }

    /// The number of collected pieces of evidence.
    pub fn evidence_count(&self) -> (n: usize)
        ensures
            n == self.store_view().len(),
    {
        self.evidence_store.len()
    }

    /// Forgets the graph, the evidence and the correlations; keeps the rules.
    pub fn clear(&mut self)
        ensures
            final(self).store_view().len() == 0,
            final(self).correlated_view().len() == 0,
            final(self).graph_nodes().len() == 0,
            final(self).graph_edges().len() == 0,
            final(self).rules_view() == old(self).rules_view(),
    {
        self.graph.clear();
        self.evidence_store = Vec::new();
        self.correlated = Vec::new();
    }
}

impl Default for EvidenceCorrelator {
    fn default() -> (c: EvidenceCorrelator)
        ensures
            c.store_view().len() == 0,
            c.rules_view() == crate::evidence_rules::default_evidence_rules(),
            c.correlated_view().len() == 0,
    {
        EvidenceCorrelator::new()
    }
}

/// With no rule enabled, a run raises nothing.
pub proof fn lemma_no_enabled_rule_raises_nothing(store: Seq<EvidenceNodeModel>, edges: Seq<EdgeModel>, rules: Seq<EvidenceRuleModel>)
    requires
        forall|i: int| 0 <= i < rules.len() ==> !(#[trigger] rules[i]).enabled,
    ensures
        fired(store, edges, enabled_only(rules)).len() == 0,
    decreases rules.len(),
{
    if rules.len() > 0 {
        let d = rules.drop_last();
        assert forall|i: int| 0 <= i < d.len() implies !(#[trigger] d[i]).enabled by {
            assert(d[i] == rules[i]);
        }
        lemma_no_enabled_rule_raises_nothing(store, edges, d);
        assert(!rules[rules.len() - 1].enabled);
    }
}

/// A raised correlation meets its rule: its mean confidence reaches the
/// rule's minimum, and it lists at least the rule's minimum of evidence.
pub proof fn lemma_raised_meets_rule(store: Seq<EvidenceNodeModel>, edges: Seq<EdgeModel>, rule: EvidenceRuleModel)
    requires
        rule_fires(store, rule),
        rule.min_evidence > 0,
    ensures
        mean_confidence(matching(store, rule.requires)) >= rule.min_confidence,
        raised(store, edges, rule).evidence_ids.len() >= rule.min_evidence,
{
    let m = matching(store, rule.requires);
    let n = m.len() as int;
    let sum = confidence_sum(m) as int;
    let min = rule.min_confidence as int;
    assert(n > 0);
    assert(sum >= min * n);
    assert(sum / n >= min) by (nonlinear_arith)
        requires
            sum >= min * n,
            n > 0,
            min >= 0;
}

/// Whether an assessed risk is known and at least `min`.
pub open spec fn risk_at_least(risk: Option<u32>, min: u32) -> bool {
    match risk {
        Some(r) => r >= min,
        None => false,
    }
}

/// The highest assessed risk is 0 or the risk of one of the items, and
/// is at least each item's risk.
proof fn lemma_max_risk_bounds(s: Seq<EvidenceNodeModel>)
    ensures
        max_risk(s) == 0 || exists|j: int| 0 <= j < s.len() && s[j].assessment_risk == Some(max_risk(s)),
        forall|j: int, x: u32| 0 <= j < s.len() && #[trigger] risk_at_least(s[j].assessment_risk, x)
            ==> max_risk(s) >= x,
    decreases s.len(),
{
    if s.len() > 0 {
        let d = s.drop_last();
        lemma_max_risk_bounds(d);
        if max_risk(s) != 0 && max_risk(s) == max_risk(d) {
            let j = choose|j: int| 0 <= j < d.len() && d[j].assessment_risk == Some(max_risk(d));
            assert(s[j] == d[j]);
        }
        if max_risk(s) != max_risk(d) {
            assert(s[s.len() - 1].assessment_risk == Some(max_risk(s)));
        }
        assert forall|j: int, x: u32| 0 <= j < s.len() && #[trigger] risk_at_least(s[j].assessment_risk, x)
            implies max_risk(s) >= x by {
            if j < d.len() {
                assert(s[j] == d[j]);
            }
        }
    }
}

/// A rule fires only when some of the evidence that counts for it has an
/// assessed risk at least the rule's minimum (or the minimum is 0): when
/// every such item has a lower risk, or none, the rule raises nothing.
/// Given its other conditions, one such item is enough for it to fire.
pub proof fn lemma_fires_needs_risk(store: Seq<EvidenceNodeModel>, rule: EvidenceRuleModel)
    ensures
        rule_fires(store, rule) ==> rule.min_assessment_risk == 0 || exists|j: int|
            0 <= j < matching(store, rule.requires).len()
            && risk_at_least((#[trigger] matching(store, rule.requires)[j]).assessment_risk, rule.min_assessment_risk),
        rule.min_assessment_risk > 0 && (forall|j: int| 0 <= j < matching(store, rule.requires).len()
            ==> !risk_at_least((#[trigger] matching(store, rule.requires)[j]).assessment_risk, rule.min_assessment_risk))
            ==> !rule_fires(store, rule),
        rule_fires(store, rule) <==> {
            let m = matching(store, rule.requires);
            &&& store.len() >= rule.min_evidence
            &&& m.len() >= rule.min_evidence
            &&& types_covered(m, rule.requires)
            &&& confidence_sum(m) >= rule.min_confidence * m.len()
            &&& rule.min_assessment_risk == 0 || exists|j: int|
                0 <= j < m.len() && risk_at_least((#[trigger] m[j]).assessment_risk, rule.min_assessment_risk)
        },
{
    let m = matching(store, rule.requires);
    lemma_max_risk_bounds(m);
    if rule_fires(store, rule) && rule.min_assessment_risk > 0 {
        let j = choose|j: int| 0 <= j < m.len() && m[j].assessment_risk == Some(max_risk(m));
        assert(risk_at_least(m[j].assessment_risk, rule.min_assessment_risk));
    }
}

} // verus!
