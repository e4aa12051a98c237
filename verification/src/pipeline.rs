use vstd::prelude::*;
use crate::assessment::AssessmentResult;
use crate::core_evidence::CoreEvidence;
use crate::object::{evidence_from_assessments, raised_evidence, raised_view, CoreError, SentinelObject};

verus! {

/// The objects that one discovery source found, and when and how fast.
/// `timestamp` is in microseconds since the Unix epoch.
pub struct DiscoveryResult {
    pub provider: String,
    pub objects: Vec<SentinelObject>,
    pub timestamp: i64,
    pub duration_ms: u64,
}

/// The objects of all discovery results, result by result, in order.
pub open spec fn discovered(rs: Seq<DiscoveryResult>) -> Seq<SentinelObject>
    decreases rs.len(),
{
    if rs.len() == 0 {
        Seq::empty()
    } else {
        discovered(rs.drop_last()) + rs.last().objects@
    }
}

/// The objects of all discovery results, in order (the first phase of a
/// pipeline run).
pub fn collect_discovered(results: Vec<DiscoveryResult>) -> (objects: Vec<SentinelObject>)
    ensures
        objects@ == discovered(results@),
{
    let ghost all = results@;
    let mut rest = results;
    let mut out: Vec<SentinelObject> = Vec::new();
    let ghost mut k: int = 0;
    while rest.len() > 0
        invariant
            0 <= k <= all.len(),
            rest@ == all.skip(k),
            out@ == discovered(all.take(k)),
        decreases rest.len(),
    {
        let mut r = rest.remove(0);
        assert(all.take(k + 1).drop_last() =~= all.take(k));
        assert(all.take(k + 1).last() == r);
        let ghost before = out@;
        let ghost found = r.objects@;
        out.append(&mut r.objects);
        assert(out@ == before + found);
        proof {
            k = k + 1;
        }
        assert(rest@ =~= all.skip(k));
    }
    assert(all.take(k) =~= all);
    out
}

/// Records what one assessor said of an object (the third phase of a
/// pipeline run): a result is added to the object's assessments, a failure
/// changes nothing.  Returns whether a result was added.
pub fn record_assessment(object: &mut SentinelObject, outcome: Result<AssessmentResult, CoreError>) -> (added: bool)
    ensures
        added == (outcome is Ok),
        outcome matches Ok(a) ==> final(object).assessments@ == old(object).assessments@.push(a),
        outcome is Err ==> final(object).assessments@ == old(object).assessments@,
        final(object).id == old(object).id,
        final(object).object_type == old(object).object_type,
        final(object).metadata@ == old(object).metadata@,
        final(object).relationships@ == old(object).relationships@,
        final(object).evidence_refs@ == old(object).evidence_refs@,
{
    match outcome {
        Ok(a) => {
            object.assessments.push(a);
            true
        },
        Err(_) => false,
    }
}

/// What a pipeline run produced.  `duration_ms` is the run's length.
pub struct PipelineResult {
    pub objects_discovered: usize,
    pub objects_enriched: usize,
    pub objects_assessed: usize,
    pub evidence_count: usize,
    pub duration_ms: u64,
    pub objects: Vec<SentinelObject>,
    pub evidence: Vec<CoreEvidence>,
}

/// The views of core evidence records.
pub open spec fn records_view(v: Seq<CoreEvidence>) -> Seq<crate::core_evidence::CoreEvidenceModel> {
    Seq::new(v.len(), |i: int| v[i]@)
}

/// Keeps the evidence raised by pipeline runs.
pub struct PipelineCoordinator {
    evidence_store: Vec<CoreEvidence>,
}

impl PipelineCoordinator {
    /// The evidence kept so far, in the order raised.
    pub closed spec fn stored(&self) -> Seq<crate::core_evidence::CoreEvidenceModel> {
        records_view(self.evidence_store@)
    }

    /// A coordinator that has kept nothing.
    pub fn new() -> (c: PipelineCoordinator)
        ensures
            c.stored().len() == 0,
    {
        let c = PipelineCoordinator { evidence_store: Vec::new() };
        assert(c.stored() =~= Seq::<crate::core_evidence::CoreEvidenceModel>::empty());
        c
    }

    /// Copies of the evidence kept so far.
    pub fn get_evidence(&self) -> (r: Vec<CoreEvidence>)
        ensures
            records_view(r@) == self.stored(),
    {
        let mut r: Vec<CoreEvidence> = Vec::new();
        let mut i: usize = 0;
        while i < self.evidence_store.len()
            invariant
                i <= self.evidence_store@.len(),
                records_view(r@) == self.stored().take(i as int),
            decreases self.evidence_store.len() - i,
        {
            let ghost before = r@;
            r.push(self.evidence_store[i].duplicate());
            assert(records_view(r@) =~= records_view(before).push(self.stored()[i as int]));
            assert(self.stored().take(i as int).push(self.stored()[i as int]) =~= self.stored().take(i + 1));
            i += 1;
        }
        assert(self.stored().take(self.evidence_store@.len() as int) =~= self.stored());
        r
    }

    /// Forgets the evidence kept.
    pub fn clear_evidence(&mut self)
        ensures
            final(self).stored().len() == 0,
    {
        self.evidence_store.clear();
    }

    /// Ends a pipeline run once discovery, enrichment and assessment have
    /// been done around it (enrichment and assessment change objects in
    /// place, never their number): raises the evidence of the assessed
    /// objects (one record per assessment with some risk), keeps copies of
    /// it after what was kept before, and reports the run, every object
    /// counted as discovered.
    pub fn complete_run(
        &mut self,
        objects: Vec<SentinelObject>,
        objects_enriched: usize,
        objects_assessed: usize,
        duration_ms: u64,
    ) -> (r: PipelineResult)
        ensures
            r.objects@ == objects@,
            r.objects_discovered == objects@.len(),
            r.objects_enriched == objects_enriched,
            r.objects_assessed == objects_assessed,
            r.duration_ms == duration_ms,
            r.evidence_count == r.evidence@.len(),
            r.evidence@.len() == raised_evidence(objects@, objects@.len() as int).len(),
            forall|k: int| 0 <= k < r.evidence@.len()
                ==> raised_view(#[trigger] r.evidence@[k]) == raised_evidence(objects@, objects@.len() as int)[k],
            final(self).stored() == old(self).stored() + records_view(r.evidence@),
            forall|k: int| 0 <= k < r.evidence@.len() ==> (#[trigger] r.evidence@[k]).assessment_snapshot is Some
                && r.evidence@[k].severity.name() == r.evidence@[k].assessment_snapshot->0.risk.name(),
    {
        proof {
            crate::object::lemma_raised_severity_matches_risk(objects@, objects@.len() as int);
        }
        let evidence = evidence_from_assessments(objects.as_slice());
        let ghost before = self.stored();
        let mut i: usize = 0;
        while i < evidence.len()
            invariant
                i <= evidence@.len(),
                self.stored() == before + records_view(evidence@).take(i as int),
            decreases evidence.len() - i,
        {
            let ghost prev = self.stored();
            self.evidence_store.push(evidence[i].duplicate());
            assert(self.stored() =~= prev.push(evidence@[i as int]@));
            assert(records_view(evidence@).take(i as int).push(evidence@[i as int]@)
                =~= records_view(evidence@).take(i + 1));
            i += 1;
        }
        assert(records_view(evidence@).take(evidence@.len() as int) =~= records_view(evidence@));
        let evidence_count = evidence.len();
        let objects_discovered = objects.len();
        PipelineResult {
            objects_discovered,
            objects_enriched,
            objects_assessed,
            evidence_count,
            duration_ms,
            objects,
            evidence,
        }
    }
}

} // verus!
