use vstd::prelude::*;
use crate::clock::now_micros;
use crate::text::{decimal, digit_char, owned, push_char, push_decimal, push_str};
use crate::threat::strings_view;
use crate::value::{Value, ValueModel};

verus! {

/// The states a watched process moves through.
#[derive(Debug, Clone, Copy, PartialEq, Eq, Hash, Structural)]
pub enum BehaviorState {
    Created,
    Running,
    Suspended,
    SyscallHooked,
    IntegrityViolation,
    PrivilegeEscalated,
    PersistenceInstalled,
    NetworkActive,
    MemoryModified,
    ModuleLoaded,
    Terminated,
}

impl BehaviorState {
    /// The snake-case name of the state.
    pub open spec fn name(self) -> Seq<char> {
        match self {
            BehaviorState::Created => "created"@,
            BehaviorState::Running => "running"@,
            BehaviorState::Suspended => "suspended"@,
            BehaviorState::SyscallHooked => "syscall_hooked"@,
            BehaviorState::IntegrityViolation => "integrity_violation"@,
            BehaviorState::PrivilegeEscalated => "privilege_escalated"@,
            BehaviorState::PersistenceInstalled => "persistence_installed"@,
            BehaviorState::NetworkActive => "network_active"@,
            BehaviorState::MemoryModified => "memory_modified"@,
            BehaviorState::ModuleLoaded => "module_loaded"@,
            BehaviorState::Terminated => "terminated"@,
        }
    }

    pub fn as_str(&self) -> (s: &'static str)
        ensures
            s@ == self.name(),
    {
        match self {
            BehaviorState::Created => "created",
            BehaviorState::Running => "running",
            BehaviorState::Suspended => "suspended",
            BehaviorState::SyscallHooked => "syscall_hooked",
            BehaviorState::IntegrityViolation => "integrity_violation",
            BehaviorState::PrivilegeEscalated => "privilege_escalated",
            BehaviorState::PersistenceInstalled => "persistence_installed",
            BehaviorState::NetworkActive => "network_active",
            BehaviorState::MemoryModified => "memory_modified",
            BehaviorState::ModuleLoaded => "module_loaded",
            BehaviorState::Terminated => "terminated",
        }
    }
}

/// One move of a process from one state to another.  `timestamp` is in
/// microseconds since the Unix epoch.
pub struct StateTransition {
    pub from: BehaviorState,
    pub to: BehaviorState,
    pub timestamp: i64,
    pub trigger: String,
    pub metadata: Value,
}

/// The mathematical content of a [`StateTransition`].
pub struct TransitionModel {
    pub from: BehaviorState,
    pub to: BehaviorState,
    pub timestamp: i64,
    pub trigger: Seq<char>,
    pub metadata: ValueModel,
}

impl View for StateTransition {
    type V = TransitionModel;

    open spec fn view(&self) -> TransitionModel {
        TransitionModel {
            from: self.from,
            to: self.to,
            timestamp: self.timestamp,
            trigger: self.trigger@,
            metadata: self.metadata@,
        }
    }
}

/// The views of a sequence of transitions.
pub open spec fn transitions_view(v: Seq<StateTransition>) -> Seq<TransitionModel> {
    Seq::new(v.len(), |i: int| v[i]@)
}

/// What is known of one watched process.  `risk_score` is in millionths,
/// at most `RISK_ONE`; times are in microseconds since the Unix epoch.
pub struct ProcessBehavior {
    pub pid: u32,
    pub name: String,
    pub current_state: BehaviorState,
    pub transitions: Vec<StateTransition>,
    pub first_seen: i64,
    pub last_seen: i64,
    pub risk_score: u32,
    pub tags: Vec<String>,
}

/// The mathematical content of a [`ProcessBehavior`].
pub struct BehaviorModel {
    pub pid: u32,
    pub name: Seq<char>,
    pub current_state: BehaviorState,
    pub transitions: Seq<TransitionModel>,
    pub first_seen: i64,
    pub last_seen: i64,
    pub risk_score: u32,
    pub tags: Seq<Seq<char>>,
}

impl View for ProcessBehavior {
    type V = BehaviorModel;

    open spec fn view(&self) -> BehaviorModel {
        BehaviorModel {
            pid: self.pid,
            name: self.name@,
            current_state: self.current_state,
            transitions: transitions_view(self.transitions@),
            first_seen: self.first_seen,
            last_seen: self.last_seen,
            risk_score: self.risk_score,
            tags: strings_view(self.tags@),
        }
    }
}

/// A suspicious pattern found in a process's behaviour.
pub struct AnomalousPattern {
    pub pid: u32,
    pub process_name: String,
    pub pattern_type: String,
    pub description: String,
    pub severity: String,
    pub transition_path: Vec<BehaviorState>,
}

/// The mathematical content of an [`AnomalousPattern`].
pub struct PatternModel {
    pub pid: u32,
    pub process_name: Seq<char>,
    pub pattern_type: Seq<char>,
    pub description: Seq<char>,
    pub severity: Seq<char>,
    pub transition_path: Seq<BehaviorState>,
}

impl View for AnomalousPattern {
    type V = PatternModel;

    open spec fn view(&self) -> PatternModel {
        PatternModel {
            pid: self.pid,
            process_name: self.process_name@,
            pattern_type: self.pattern_type@,
            description: self.description@,
            severity: self.severity@,
            transition_path: self.transition_path@,
        }
    }
}

/// The views of a sequence of patterns.
pub open spec fn patterns_view(v: Seq<AnomalousPattern>) -> Seq<PatternModel> {
    Seq::new(v.len(), |i: int| v[i]@)
}

/// Full risk, in millionths.
pub const RISK_ONE: u32 = 1_000_000;

/// The risk added by a transition that no rule names, in millionths.
pub const DEFAULT_RISK_DELTA: u32 = 100_000;

/// The most transitions kept per process; older ones are dropped first.
pub const MAX_TRANSITIONS_PER_PROCESS: usize = 500;

/// How much risk (in millionths) a move from one state to another adds.
pub struct TransitionRule {
    pub from: BehaviorState,
    pub to: BehaviorState,
    pub risk_delta: u32,
    pub description: String,
}

/// The mathematical content of a [`TransitionRule`].
pub struct RuleModel {
    pub from: BehaviorState,
    pub to: BehaviorState,
    pub risk_delta: u32,
    pub description: Seq<char>,
}

impl View for TransitionRule {
    type V = RuleModel;

    open spec fn view(&self) -> RuleModel {
        RuleModel { from: self.from, to: self.to, risk_delta: self.risk_delta, description: self.description@ }
    }
}

/// The views of a sequence of rules.
pub open spec fn transition_rules_view(v: Seq<TransitionRule>) -> Seq<RuleModel> {
    Seq::new(v.len(), |i: int| v[i]@)
}

/// The built-in transition rules.
pub open spec fn default_transition_rules() -> Seq<RuleModel> {
    seq![
        RuleModel { from: BehaviorState::Running, to: BehaviorState::SyscallHooked, risk_delta: 300_000,
            description: "Syscall hooked from running state"@ },
        RuleModel { from: BehaviorState::SyscallHooked, to: BehaviorState::IntegrityViolation, risk_delta: 400_000,
            description: "Integrity violation after syscall hook"@ },
        RuleModel { from: BehaviorState::Running, to: BehaviorState::PrivilegeEscalated, risk_delta: 500_000,
            description: "Privilege escalation detected"@ },
        RuleModel { from: BehaviorState::PrivilegeEscalated, to: BehaviorState::PersistenceInstalled, risk_delta: 400_000,
            description: "Persistence after privilege escalation"@ },
        RuleModel { from: BehaviorState::Running, to: BehaviorState::MemoryModified, risk_delta: 300_000,
            description: "Memory modification detected"@ },
        RuleModel { from: BehaviorState::MemoryModified, to: BehaviorState::IntegrityViolation, risk_delta: 300_000,
            description: "Integrity violation after memory modification"@ },
        RuleModel { from: BehaviorState::Running, to: BehaviorState::NetworkActive, risk_delta: 100_000,
            description: "Network activity started"@ },
        RuleModel { from: BehaviorState::IntegrityViolation, to: BehaviorState::NetworkActive, risk_delta: 300_000,
            description: "Network activity after integrity violation"@ },
    ]
}

/// The risk a move from `from` to `to` adds: that of the last rule naming
/// the move, else the default.
pub open spec fn delta_for(rules: Seq<RuleModel>, from: BehaviorState, to: BehaviorState) -> u32
    decreases rules.len(),
{
    if rules.len() == 0 {
        DEFAULT_RISK_DELTA
    } else if rules.last().from == from && rules.last().to == to {
        rules.last().risk_delta
    } else {
        delta_for(rules.drop_last(), from, to)
    }
}

/// A risk score after `delta` more, capped at full risk.
pub open spec fn raised_risk(risk: u32, delta: u32) -> u32 {
    if risk + delta > RISK_ONE { RISK_ONE } else { (risk + delta) as u32 }
}

/// A transition list after one more, the oldest dropped beyond the cap.
pub open spec fn capped(ts: Seq<TransitionModel>) -> Seq<TransitionModel> {
    if ts.len() > MAX_TRANSITIONS_PER_PROCESS { ts.drop_first() } else { ts }
}

/// A process after it moves to `to` at time `at`, with `delta` more risk.
pub open spec fn moved(p: BehaviorModel, to: BehaviorState, trigger: Seq<char>, metadata: ValueModel, delta: u32, at: i64) -> BehaviorModel {
    BehaviorModel {
        current_state: to,
        last_seen: at,
        risk_score: raised_risk(p.risk_score, delta),
        transitions: capped(p.transitions.push(TransitionModel {
            from: p.current_state,
            to,
            timestamp: at,
            trigger,
            metadata,
        })),
        ..p
    }
}

/// The record of a process first seen at time `at`: running, with its
/// start as the one transition and no risk.
pub open spec fn started(pid: u32, name: Seq<char>, at: i64) -> BehaviorModel {
    BehaviorModel {
        pid,
        name,
        current_state: BehaviorState::Running,
        transitions: seq![TransitionModel {
            from: BehaviorState::Created,
            to: BehaviorState::Running,
            timestamp: at,
            trigger: "process_started"@,
            metadata: ValueModel::Json("{}"@),
        }],
        first_seen: at,
        last_seen: at,
        risk_score: 0,
        tags: Seq::empty(),
    }
}

/// The position of the process with the given pid, if any.
pub open spec fn pid_slot(ps: Seq<BehaviorModel>, pid: u32) -> Option<int> {
    if exists|i: int| 0 <= i < ps.len() && ps[i].pid == pid {
        Some(choose|i: int| 0 <= i < ps.len() && ps[i].pid == pid)
    } else {
        None
    }
}

/// Pids are pairwise distinct.
pub open spec fn pids_unique(ps: Seq<BehaviorModel>) -> bool {
    forall|i: int, j: int| 0 <= i < ps.len() && 0 <= j < ps.len() && i != j ==> ps[i].pid != ps[j].pid
}

/// A process record within bounds: risk at most full, transitions at most
/// the cap.
pub open spec fn bounded(p: BehaviorModel) -> bool {
    p.risk_score <= RISK_ONE && p.transitions.len() <= MAX_TRANSITIONS_PER_PROCESS
}

/// The views of a sequence of process records.
pub open spec fn behaviors_view(v: Seq<ProcessBehavior>) -> Seq<BehaviorModel> {
    Seq::new(v.len(), |i: int| v[i]@)
}

/// The views of a sequence of process record references.
pub open spec fn behavior_refs_view(v: Seq<&ProcessBehavior>) -> Seq<BehaviorModel> {
    Seq::new(v.len(), |i: int| v[i]@)
}

/// A risk score in millionths written with two decimals, rounded half up.
pub open spec fn two_decimals(risk: u32) -> Seq<char> {
    let h = (risk as nat + 5000) / 10000;
    decimal(h / 100) + "."@ + seq![digit_char((h % 100) / 10), digit_char(h % 10)]
}

/// The high-risk pattern of a process whose risk is at least 0.7.
pub open spec fn high_risk_pattern(p: BehaviorModel) -> Seq<PatternModel> {
    if p.risk_score >= 700_000 {
        seq![PatternModel {
            pid: p.pid,
            process_name: p.name,
            pattern_type: "high_risk_score"@,
            description: "Process "@ + p.name + " has risk score "@ + two_decimals(p.risk_score),
            severity: if p.risk_score >= 900_000 { "critical"@ } else { "high"@ },
            transition_path: Seq::new(p.transitions.len(), |i: int| p.transitions[i].to),
        }]
    } else {
        Seq::empty()
    }
}

/// Whether some transition led to the state `s`.
pub open spec fn reached(p: BehaviorModel, s: BehaviorState) -> bool {
    exists|i: int| 0 <= i < p.transitions.len() && p.transitions[i].to == s
}

/// The pattern of a process that has been hooked, broken integrity and
/// installed persistence.
pub open spec fn chain_pattern(p: BehaviorModel) -> Seq<PatternModel> {
    if reached(p, BehaviorState::SyscallHooked) && reached(p, BehaviorState::IntegrityViolation)
        && reached(p, BehaviorState::PersistenceInstalled) {
        seq![PatternModel {
            pid: p.pid,
            process_name: p.name,
            pattern_type: "full_escalation_chain"@,
            description: "Process "@ + p.name + " completed full attack chain: hook → integrity → persistence"@,
            severity: "critical"@,
            transition_path: seq![BehaviorState::SyscallHooked, BehaviorState::IntegrityViolation,
                BehaviorState::PersistenceInstalled],
        }]
    } else {
        Seq::empty()
    }
}

/// The pattern of a process whose last three transitions came within five
/// seconds.
pub open spec fn rapid_pattern(p: BehaviorModel) -> Seq<PatternModel> {
    let ts = p.transitions;
    let n = ts.len() as int;
    if n >= 3 && ts[n - 1].timestamp - ts[n - 3].timestamp <= 5_000_000 {
        seq![PatternModel {
            pid: p.pid,
            process_name: p.name,
            pattern_type: "rapid_state_change"@,
            description: "Process "@ + p.name + " changed state 3 times in 5 seconds"@,
            severity: "medium"@,
            transition_path: seq![ts[n - 3].to, ts[n - 2].to, ts[n - 1].to],
        }]
    } else {
        Seq::empty()
    }
}

/// The patterns found in the first `n` processes, process by process.
pub open spec fn anomalies(ps: Seq<BehaviorModel>, n: int) -> Seq<PatternModel>
    decreases n,
{
    if n <= 0 {
        Seq::empty()
    } else {
        let p = ps[n - 1];
        anomalies(ps, n - 1) + high_risk_pattern(p) + chain_pattern(p) + rapid_pattern(p)
    }
}

/// The processes with risk at least one half, in order.
pub open spec fn risky(ps: Seq<BehaviorModel>) -> Seq<BehaviorModel>
    decreases ps.len(),
{
    if ps.len() == 0 {
        ps
    } else if ps.last().risk_score >= 500_000 {
        risky(ps.drop_last()).push(ps.last())
    } else {
        risky(ps.drop_last())
    }
}

fn rule(from: BehaviorState, to: BehaviorState, risk_delta: u32, description: &str) -> (r: TransitionRule)
    ensures
        r@ == (RuleModel { from, to, risk_delta, description: description@ }),
{
    TransitionRule { from, to, risk_delta, description: owned(description) }
}

/// Follows the state of watched processes and scores the risk of their
/// moves.
pub struct BehaviorGraph {
    processes: Vec<ProcessBehavior>,
    transition_rules: Vec<TransitionRule>,
}

impl BehaviorGraph {
    #[verifier::type_invariant]
    closed spec fn inv(self) -> bool {
        &&& pids_unique(behaviors_view(self.processes@))
        &&& forall|i: int| 0 <= i < self.processes@.len() ==> bounded(#[trigger] self.processes@[i]@)
        &&& transition_rules_view(self.transition_rules@) == default_transition_rules()
    }

    /// The watched processes, in the order they were first seen.
    pub closed spec fn procs(&self) -> Seq<BehaviorModel> {
        behaviors_view(self.processes@)
    }

    /// The transition rules.
    pub closed spec fn rules(&self) -> Seq<RuleModel> {
        transition_rules_view(self.transition_rules@)
    }

    /// The transition rules that score moves.
    pub fn transition_rules(&self) -> (r: &[TransitionRule])
        ensures
            transition_rules_view(r@) == self.rules(),
            transition_rules_view(r@) == default_transition_rules(),
    {
        proof {
            use_type_invariant(self);
        }
        self.transition_rules.as_slice()
    }

    /// A graph with the built-in rules and no process.
    pub fn new() -> (g: BehaviorGraph)
        ensures
            g.procs().len() == 0,
            g.rules() == default_transition_rules(),
    {
        let mut rules: Vec<TransitionRule> = Vec::new();
        Self::add_default_rules(&mut rules);
        assert(transition_rules_view(rules@) =~= default_transition_rules());
        let g = BehaviorGraph { processes: Vec::new(), transition_rules: rules };
        assert(g.procs() =~= Seq::<BehaviorModel>::empty());
        g
    }

    /// Appends the built-in rules to `rules`.
    fn add_default_rules(rules: &mut Vec<TransitionRule>)
        ensures
            transition_rules_view(final(rules)@) == transition_rules_view(old(rules)@) + default_transition_rules(),
    {
        let ghost before = transition_rules_view(rules@);
        rules.push(rule(BehaviorState::Running, BehaviorState::SyscallHooked, 300_000,
            "Syscall hooked from running state"));
        rules.push(rule(BehaviorState::SyscallHooked, BehaviorState::IntegrityViolation, 400_000,
            "Integrity violation after syscall hook"));
        rules.push(rule(BehaviorState::Running, BehaviorState::PrivilegeEscalated, 500_000,
            "Privilege escalation detected"));
        rules.push(rule(BehaviorState::PrivilegeEscalated, BehaviorState::PersistenceInstalled, 400_000,
            "Persistence after privilege escalation"));
        rules.push(rule(BehaviorState::Running, BehaviorState::MemoryModified, 300_000,
            "Memory modification detected"));
        rules.push(rule(BehaviorState::MemoryModified, BehaviorState::IntegrityViolation, 300_000,
            "Integrity violation after memory modification"));
        rules.push(rule(BehaviorState::Running, BehaviorState::NetworkActive, 100_000,
            "Network activity started"));
        rules.push(rule(BehaviorState::IntegrityViolation, BehaviorState::NetworkActive, 300_000,
            "Network activity after integrity violation"));
        assert(transition_rules_view(rules@) =~= before + default_transition_rules());
    }

    fn find(&self, pid: u32) -> (r: Option<usize>)
        ensures
            r matches Some(i) ==> i < self.procs().len() && self.procs()[i as int].pid == pid
                && pid_slot(self.procs(), pid) == Some(i as int),
            r is None ==> pid_slot(self.procs(), pid) is None,
    {
        proof {
            use_type_invariant(self);
        }
        let mut i: usize = 0;
        while i < self.processes.len()
            invariant
                i <= self.processes@.len(),
                pids_unique(self.procs()),
                forall|j: int| 0 <= j < i ==> self.procs()[j].pid != pid,
            decreases self.processes.len() - i,
        {
            if self.processes[i].pid == pid {
                assert(self.procs()[i as int].pid == pid);
                return Some(i);
            }
            i += 1;
        }
        None
    }

    /// Starts watching a process, first seen now, unless it is watched
    /// already.
    pub fn observe_process(&mut self, pid: u32, name: &str)
        ensures
            pid_slot(old(self).procs(), pid) is Some ==> final(self).procs() == old(self).procs(),
            pid_slot(old(self).procs(), pid) is None ==> final(self).procs()
                == old(self).procs().push(started(pid, name@, final(self).procs().last().first_seen)),
            final(self).rules() == old(self).rules(),
            final(self).rules() == default_transition_rules(),
    {
        proof {
            use_type_invariant(&*self);
        }
        if self.find(pid).is_some() {
            return;
        }
        let now = now_micros();
        let mut transitions: Vec<StateTransition> = Vec::new();
        transitions.push(StateTransition {
            from: BehaviorState::Created,
            to: BehaviorState::Running,
            timestamp: now,
            trigger: owned("process_started"),
            metadata: Value::Json(owned("{}")),
        });
        let p = ProcessBehavior {
            pid,
            name: owned(name),
            current_state: BehaviorState::Running,
            transitions,
            first_seen: now,
            last_seen: now,
            risk_score: 0,
            tags: Vec::new(),
        };
        assert(p@.transitions =~= started(pid, name@, now).transitions);
        assert(p@.tags =~= Seq::<Seq<char>>::empty());
        let ghost before = self.procs();
        let mut v: Vec<ProcessBehavior> = Vec::new();
        std::mem::swap(&mut v, &mut self.processes);
        v.push(p);
        assert(behaviors_view(v@) =~= before.push(started(pid, name@, now)));
        self.processes = v;
    }

    /// The risk the rules give to a move from `from` to `to`.
    fn risk_delta(&self, from: BehaviorState, to: BehaviorState) -> (d: u32)
        ensures
            d == delta_for(self.rules(), from, to),
    {
        let ghost rs = self.rules();
        let mut i: usize = self.transition_rules.len();
        assert(rs.take(i as int) =~= rs);
        while i > 0
            invariant
                i <= self.transition_rules@.len(),
                rs == self.rules(),
                delta_for(rs, from, to) == delta_for(rs.take(i as int), from, to),
            decreases i,
        {
            let r = &self.transition_rules[i - 1];
            assert(rs.take(i as int).drop_last() =~= rs.take(i - 1));
            assert(rs.take(i as int).last() == r@);
            if r.from == from && r.to == to {
                return r.risk_delta;
            }
            i -= 1;
        }
        DEFAULT_RISK_DELTA
    }

    /// Moves a watched process to `to_state` now, adds the move's risk
    /// (capped at full risk) and records the move, dropping the oldest
    /// record beyond the cap.  Returns whether the process is watched.
    pub fn transition(&mut self, pid: u32, to_state: BehaviorState, trigger: &str, metadata: Value) -> (b: bool)
        ensures
            b == (pid_slot(old(self).procs(), pid) is Some),
            pid_slot(old(self).procs(), pid) matches Some(i) ==> final(self).procs() == old(self).procs().update(i,
                moved(old(self).procs()[i], to_state, trigger@, metadata@,
                    delta_for(default_transition_rules(), old(self).procs()[i].current_state, to_state),
                    final(self).procs()[i].last_seen)),
            pid_slot(old(self).procs(), pid) is None ==> final(self).procs() == old(self).procs(),
            final(self).rules() == old(self).rules(),
            final(self).rules() == default_transition_rules(),
    {
        proof {
            use_type_invariant(&*self);
        }
        let i = match self.find(pid) {
            Some(i) => i,
            None => {
                return false;
            },
        };
        let ghost before = self.procs();
        assert(forall|k: int| 0 <= k < before.len() ==> bounded(#[trigger] before[k])) by {
            assert forall|k: int| 0 <= k < before.len() implies bounded(#[trigger] before[k]) by {
                assert(before[k] == self.processes@[k]@);
            }
        }
        let from = self.processes[i].current_state;
        let delta = self.risk_delta(from, to_state);
        let now = now_micros();
        let mut v: Vec<ProcessBehavior> = Vec::new();
        std::mem::swap(&mut v, &mut self.processes);
        let old_p = v.remove(i);
        let ghost op = old_p@;
        assert(op == before[i as int]);
        let sum: u64 = old_p.risk_score as u64 + delta as u64;
        let risk: u32 = if sum > RISK_ONE as u64 { RISK_ONE } else { sum as u32 };
        let mut transitions = old_p.transitions;
        let ghost ts0 = transitions_view(transitions@);
        transitions.push(StateTransition { from, to: to_state, timestamp: now, trigger: owned(trigger), metadata });
        let ghost pushed = transitions_view(transitions@);
        assert(pushed =~= ts0.push(TransitionModel { from, to: to_state, timestamp: now, trigger: trigger@, metadata: metadata@ }));
        if transitions.len() > MAX_TRANSITIONS_PER_PROCESS {
            transitions.remove(0);
            assert(transitions_view(transitions@) =~= pushed.drop_first());
        }
        let p = ProcessBehavior {
            pid: old_p.pid,
            name: old_p.name,
            current_state: to_state,
            transitions,
            first_seen: old_p.first_seen,
            last_seen: now,
            risk_score: risk,
            tags: old_p.tags,
        };
        let ghost pv = p@;
        assert(pv == moved(op, to_state, trigger@, metadata@, delta, now));
        v.insert(i, p);
        assert(behaviors_view(v@) =~= before.update(i as int, pv));
        proof {
            assert forall|a: int, b: int| 0 <= a < v@.len() && 0 <= b < v@.len() && a != b implies
                behaviors_view(v@)[a].pid != behaviors_view(v@)[b].pid by {
                assert(behaviors_view(v@)[a].pid == before[a].pid);
                assert(behaviors_view(v@)[b].pid == before[b].pid);
            }
            assert forall|k: int| 0 <= k < v@.len() implies bounded(#[trigger] v@[k]@) by {
                assert(v@[k]@ == behaviors_view(v@)[k]);
                if k != i {
                    assert(behaviors_view(v@)[k] == before[k]);
                }
            }
        }
        self.processes = v;
        true
    }
    /// The record of a watched process.
    pub fn get_process(&self, pid: u32) -> (r: Option<&ProcessBehavior>)
        ensures
            pid_slot(self.procs(), pid) matches Some(i) ==> (r matches Some(p) && p@ == self.procs()[i] && bounded(p@)),
            pid_slot(self.procs(), pid) is None ==> r is None,
    {
        proof {
            use_type_invariant(self);
        }
        match self.find(pid) {
            Some(i) => {
                assert(bounded(self.processes@[i as int]@));
                Some(&self.processes[i])
            },
            None => None,
        }
    }

    /// The records of all watched processes, in the order first seen.
    pub fn all_processes(&self) -> (r: Vec<&ProcessBehavior>)
        ensures
            behavior_refs_view(r@) == self.procs(),
    {
        let mut r: Vec<&ProcessBehavior> = Vec::new();
        let mut i: usize = 0;
        while i < self.processes.len()
            invariant
                i <= self.processes@.len(),
                r@.len() == i,
                forall|k: int| 0 <= k < i ==> r@[k]@ == self.procs()[k],
            decreases self.processes.len() - i,
        {
            r.push(&self.processes[i]);
            i += 1;
        }
        assert(behavior_refs_view(r@) =~= self.procs());
        r
    }

    /// The records with risk at least one half, in the order first seen.
    pub fn high_risk_processes(&self) -> (r: Vec<&ProcessBehavior>)
        ensures
            behavior_refs_view(r@) == risky(self.procs()),
    {
        let ghost ps = self.procs();
        let mut r: Vec<&ProcessBehavior> = Vec::new();
        let mut i: usize = 0;
        while i < self.processes.len()
            invariant
                i <= self.processes@.len(),
                ps == self.procs(),
                behavior_refs_view(r@) == risky(ps.take(i as int)),
            decreases self.processes.len() - i,
        {
            assert(ps.take(i + 1).drop_last() =~= ps.take(i as int));
            assert(ps[i as int] == self.processes@[i as int]@);
            if self.processes[i].risk_score >= 500_000 {
                let ghost before = r@;
                r.push(&self.processes[i]);
                assert(behavior_refs_view(r@) =~= behavior_refs_view(before).push(ps[i as int]));
            }
            i += 1;
        }
        assert(ps.take(self.processes.len() as int) =~= ps);
        r
    }

    /// Stops watching a process and returns its record.
    pub fn remove_process(&mut self, pid: u32) -> (r: Option<ProcessBehavior>)
        ensures
            pid_slot(old(self).procs(), pid) matches Some(i) ==> (r matches Some(p) && p@ == old(self).procs()[i]
                && final(self).procs() == old(self).procs().remove(i)),
            pid_slot(old(self).procs(), pid) is None ==> r is None && final(self).procs() == old(self).procs(),
            final(self).rules() == old(self).rules(),
            final(self).rules() == default_transition_rules(),
    {
        proof {
            use_type_invariant(&*self);
        }
        match self.find(pid) {
            Some(i) => {
                let ghost before = self.procs();
                assert(forall|k: int| 0 <= k < before.len() ==> bounded(#[trigger] before[k])) by {
                    assert forall|k: int| 0 <= k < before.len() implies bounded(#[trigger] before[k]) by {
                        assert(before[k] == self.processes@[k]@);
                    }
                }
                let mut v: Vec<ProcessBehavior> = Vec::new();
                std::mem::swap(&mut v, &mut self.processes);
                let p = v.remove(i);
                assert(behaviors_view(v@) =~= before.remove(i as int));
                proof {
                    let after = behaviors_view(v@);
                    assert forall|a: int, b: int| 0 <= a < after.len() && 0 <= b < after.len() && a != b implies
                        after[a].pid != after[b].pid by {
                        let a2 = if a < i { a } else { a + 1 };
                        let b2 = if b < i { b } else { b + 1 };
                        assert(after[a] == before[a2]);
                        assert(after[b] == before[b2]);
                    }
                    assert forall|k: int| 0 <= k < v@.len() implies bounded(#[trigger] v@[k]@) by {
                        let k2 = if k < i { k } else { k + 1 };
                        assert(v@[k]@ == after[k]);
                        assert(after[k] == before[k2]);
                    }
                }
                self.processes = v;
                Some(p)
            },
            None => None,
        }
    }

    /// The number of watched processes.
    pub fn process_count(&self) -> (n: usize)
        ensures
            n == self.procs().len(),
    {
        self.processes.len()
    }

    /// The suspicious patterns of every watched process, process by process
    /// in the order first seen: high risk, the full escalation chain, and
    /// three moves within five seconds.
    pub fn detect_anomalies(&self) -> (r: Vec<AnomalousPattern>)
        ensures
            patterns_view(r@) == anomalies(self.procs(), self.procs().len() as int),
    {
        let ghost ps = self.procs();
        let mut r: Vec<AnomalousPattern> = Vec::new();
        let mut i: usize = 0;
        while i < self.processes.len()
            invariant
                i <= self.processes@.len(),
                ps == self.procs(),
                patterns_view(r@) == anomalies(ps, i as int),
            decreases self.processes.len() - i,
        {
            let p = &self.processes[i];
            assert(ps[i as int] == p@);
            let ghost base = patterns_view(r@);
            if p.risk_score >= 700_000 {
                let mut path: Vec<BehaviorState> = Vec::new();
                let mut k: usize = 0;
                while k < p.transitions.len()
                    invariant
                        k <= p.transitions@.len(),
                        path@.len() == k,
                        forall|q: int| 0 <= q < k ==> path@[q] == p.transitions@[q].to,
                    decreases p.transitions.len() - k,
                {
                    path.push(p.transitions[k].to);
                    k += 1;
                }
                assert(path@ =~= Seq::new(p@.transitions.len(), |q: int| p@.transitions[q].to));
                let mut description = owned("Process ");
                push_str(&mut description, p.name.as_str());
                push_str(&mut description, " has risk score ");
                push_two_decimals(&mut description, p.risk_score);
                let severity = if p.risk_score >= 900_000 { owned("critical") } else { owned("high") };
                r.push(AnomalousPattern {
                    pid: p.pid,
                    process_name: p.name.clone(),
                    pattern_type: owned("high_risk_score"),
                    description,
                    severity,
                    transition_path: path,
                });
            }
            let ghost after_high = patterns_view(r@);
            assert(after_high =~= base + high_risk_pattern(p@));
            match check_escalation_chain(p) {
                Some(a) => {
                    r.push(a);
                },
                None => {},
            }
            let ghost after_chain = patterns_view(r@);
            assert(after_chain =~= base + high_risk_pattern(p@) + chain_pattern(p@));
            match check_rapid_state_changes(p) {
                Some(a) => {
                    r.push(a);
                },
                None => {},
            }
            assert(patterns_view(r@) =~= base + high_risk_pattern(p@) + chain_pattern(p@) + rapid_pattern(p@));
            i += 1;
        }
        r
    }
}

/// Appends a risk score in millionths with two decimals, rounded half up.
fn push_two_decimals(s: &mut String, risk: u32)
    ensures
        final(s)@ == old(s)@ + two_decimals(risk),
{
    let h: u64 = (risk as u64 + 5000) / 10000;
    push_decimal(s, h / 100);
    push_char(s, '.');
    let tens = digit_of((h % 100) / 10);
    let ones = digit_of(h % 10);
    push_char(s, tens);
    push_char(s, ones);
    assert(old(s)@ + decimal((h / 100) as nat) + "."@ + seq![digit_char(((h % 100) / 10) as nat), digit_char((h % 10) as nat)]
        =~= old(s)@ + two_decimals(risk)) by {
        reveal_strlit(".");
    }
    proof {
        reveal_strlit(".");
    }
}

fn digit_of(d: u64) -> (c: char)
    requires
        d < 10,
    ensures
        c == digit_char(d as nat),
{
    if d == 0 { '0' }
    else if d == 1 { '1' }
    else if d == 2 { '2' }
    else if d == 3 { '3' }
    else if d == 4 { '4' }
    else if d == 5 { '5' }
    else if d == 6 { '6' }
    else if d == 7 { '7' }
    else if d == 8 { '8' }
    else { '9' }
}

/// The full escalation chain pattern of a process, if it has one.
fn check_escalation_chain(process: &ProcessBehavior) -> (r: Option<AnomalousPattern>)
    ensures
        chain_pattern(process@).len() == 1 ==> (r matches Some(a) && a@ == chain_pattern(process@)[0]),
        chain_pattern(process@).len() == 0 ==> r is None,
        chain_pattern(process@).len() <= 1,
{
    let mut has_hook = false;
    let mut has_integrity = false;
    let mut has_persistence = false;
    let ghost p = process@;
    let mut i: usize = 0;
    while i < process.transitions.len()
        invariant
            i <= process.transitions@.len(),
            p == process@,
            has_hook == exists|k: int| 0 <= k < i && p.transitions[k].to == BehaviorState::SyscallHooked,
            has_integrity == exists|k: int| 0 <= k < i && p.transitions[k].to == BehaviorState::IntegrityViolation,
            has_persistence == exists|k: int| 0 <= k < i && p.transitions[k].to == BehaviorState::PersistenceInstalled,
        decreases process.transitions.len() - i,
    {
        let to = process.transitions[i].to;
        assert(p.transitions[i as int].to == to);
        match to {
            BehaviorState::SyscallHooked => {
                has_hook = true;
            },
            BehaviorState::IntegrityViolation => {
                has_integrity = true;
            },
            BehaviorState::PersistenceInstalled => {
                has_persistence = true;
            },
            _ => {},
        }
        i += 1;
    }
    if has_hook && has_integrity && has_persistence {
        let mut description = owned("Process ");
        push_str(&mut description, process.name.as_str());
        push_str(&mut description, " completed full attack chain: hook → integrity → persistence");
        let mut path: Vec<BehaviorState> = Vec::new();
        path.push(BehaviorState::SyscallHooked);
        path.push(BehaviorState::IntegrityViolation);
        path.push(BehaviorState::PersistenceInstalled);
        let a = AnomalousPattern {
            pid: process.pid,
            process_name: process.name.clone(),
            pattern_type: owned("full_escalation_chain"),
            description,
            severity: owned("critical"),
            transition_path: path,
        };
        assert(a@.transition_path =~= seq![BehaviorState::SyscallHooked, BehaviorState::IntegrityViolation,
            BehaviorState::PersistenceInstalled]);
        Some(a)
    } else {
        None
    }
}

/// The rapid-change pattern of a process, if its last three moves came
/// within five seconds.
fn check_rapid_state_changes(process: &ProcessBehavior) -> (r: Option<AnomalousPattern>)
    ensures
        rapid_pattern(process@).len() == 1 ==> (r matches Some(a) && a@ == rapid_pattern(process@)[0]),
        rapid_pattern(process@).len() == 0 ==> r is None,
        rapid_pattern(process@).len() <= 1,
{
    let len = process.transitions.len();
    if len < 3 {
        return None;
    }
    let t0 = &process.transitions[len - 3];
    let t1 = &process.transitions[len - 2];
    let t2 = &process.transitions[len - 1];
    let span: i128 = t2.timestamp as i128 - t0.timestamp as i128;
    if span <= 5_000_000 {
        let mut path: Vec<BehaviorState> = Vec::new();
        path.push(t0.to);
        path.push(t1.to);
        path.push(t2.to);
        let mut description = owned("Process ");
        push_str(&mut description, process.name.as_str());
        push_str(&mut description, " changed state 3 times in 5 seconds");
        let a = AnomalousPattern {
            pid: process.pid,
            process_name: process.name.clone(),
            pattern_type: owned("rapid_state_change"),
            description,
            severity: owned("medium"),
            transition_path: path,
        };
        assert(a@.transition_path =~= seq![t0.to, t1.to, t2.to]);
        return Some(a);
    }
    None
}

impl Default for BehaviorGraph {
    fn default() -> (g: BehaviorGraph)
        ensures
            g.procs().len() == 0,
            g.rules() == default_transition_rules(),
    {
        BehaviorGraph::new()
    }
}

/// Risk only grows with each move, and never beyond full risk.
pub proof fn lemma_risk_monotone(risk: u32, delta: u32)
    requires
        risk <= RISK_ONE,
    ensures
        risk <= raised_risk(risk, delta) <= RISK_ONE,
        delta > 0 && risk < RISK_ONE ==> risk < raised_risk(risk, delta),
{
}

/// A move keeps a record within bounds, makes the target the current
/// state, and records the move last.
pub proof fn lemma_moved_bounded(p: BehaviorModel, to: BehaviorState, trigger: Seq<char>, metadata: ValueModel, delta: u32, at: i64)
    requires
        bounded(p),
    ensures
        bounded(moved(p, to, trigger, metadata, delta, at)),
        moved(p, to, trigger, metadata, delta, at).current_state == to,
        moved(p, to, trigger, metadata, delta, at).transitions.last() == (TransitionModel {
            from: p.current_state,
            to,
            timestamp: at,
            trigger,
            metadata,
        }),
        moved(p, to, trigger, metadata, delta, at).pid == p.pid,
{
    let pushed = p.transitions.push(TransitionModel { from: p.current_state, to, timestamp: at, trigger, metadata });
    if pushed.len() > MAX_TRANSITIONS_PER_PROCESS {
        assert(pushed.drop_first().last() == pushed.last());
    }
}

/// A newly watched process is within bounds, running, with no risk.
pub proof fn lemma_started_bounded(pid: u32, name: Seq<char>, at: i64)
    ensures
        bounded(started(pid, name, at)),
        started(pid, name, at).current_state == BehaviorState::Running,
        started(pid, name, at).risk_score == 0,
{
}

} // verus!
