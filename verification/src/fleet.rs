use vstd::prelude::*;
use crate::clock::{new_id, now_micros, uuid_string, uuid_text};
use crate::text::{owned, str_eq};
use crate::value::{Value, ValueModel};
use crate::forensics::opt_text;

verus! {

/// A remote action asked of an agent, and how it ended once it did.
/// Times are in microseconds since the Unix epoch.
pub struct RemoteActionRecord {
    pub action_id: String,
    pub agent_id: String,
    pub action_type: String,
    pub params: Value,
    pub status: String,
    pub result: Option<Value>,
    pub error: Option<String>,
    pub created_at: i64,
    pub completed_at: Option<i64>,
    pub duration_ms: Option<u64>,
}

/// The plain contents of a [`RemoteActionRecord`].
pub struct ActionModel {
    pub action_id: Seq<char>,
    pub agent_id: Seq<char>,
    pub action_type: Seq<char>,
    pub params: ValueModel,
    pub status: Seq<char>,
    pub result: Option<ValueModel>,
    pub error: Option<Seq<char>>,
    pub created_at: i64,
    pub completed_at: Option<i64>,
    pub duration_ms: Option<u64>,
}

impl View for RemoteActionRecord {
    type V = ActionModel;

    open spec fn view(&self) -> ActionModel {
        ActionModel {
            action_id: self.action_id@,
            agent_id: self.agent_id@,
            action_type: self.action_type@,
            params: self.params@,
            status: self.status@,
            result: match self.result {
                Some(v) => Some(v@),
                None => None,
            },
            error: match self.error {
                Some(e) => Some(e@),
                None => None,
            },
            created_at: self.created_at,
            completed_at: self.completed_at,
            duration_ms: self.duration_ms,
        }
    }
}

impl RemoteActionRecord {
    /// A copy of the record.
    pub fn duplicate(&self) -> (r: RemoteActionRecord)
        ensures
            r@ == self@,
    {
        RemoteActionRecord {
            action_id: self.action_id.clone(),
            agent_id: self.agent_id.clone(),
            action_type: self.action_type.clone(),
            params: self.params.duplicate(),
            status: self.status.clone(),
            result: match &self.result {
                Some(v) => Some(v.duplicate()),
                None => None,
            },
            error: match &self.error {
                Some(e) => Some(e.clone()),
                None => None,
            },
            created_at: self.created_at,
            completed_at: self.completed_at,
            duration_ms: self.duration_ms,
        }
    }
}

/// The views of a sequence of action records.
pub open spec fn actions_view(v: Seq<RemoteActionRecord>) -> Seq<ActionModel> {
    Seq::new(v.len(), |i: int| v[i]@)
}

/// The first position from `i` on of the action with id `id`.
pub open spec fn action_pos(a: Seq<ActionModel>, id: Seq<char>, i: int) -> Option<int>
    decreases a.len() - i,
{
    if i < 0 || i >= a.len() {
        None
    } else if a[i].action_id == id {
        Some(i)
    } else {
        action_pos(a, id, i + 1)
    }
}

/// An action as it stands once completed: its status `completed` or
/// `failed`, its result, error and duration, and its completion time.
pub open spec fn completed_action(a: ActionModel, success: bool, result: ValueModel, error: Option<Seq<char>>,
    completed_at: i64, duration_ms: u64) -> ActionModel {
    ActionModel {
        status: if success { "completed"@ } else { "failed"@ },
        result: Some(result),
        error,
        completed_at: Some(completed_at),
        duration_ms: Some(duration_ms),
        ..a
    }
}

/// A summary of the fleet: agents by health, the totals the agents
/// reported, and the policies and actions handed out.
#[derive(Debug, Clone)]
pub struct FleetOverview {
    pub total_agents: usize,
    pub healthy_agents: usize,
    pub degraded_agents: usize,
    pub offline_agents: usize,
    pub total_heartbeats: u64,
    pub total_incidents: u64,
    pub total_threats: u64,
    pub total_policies: usize,
    pub total_actions: u64,
    pub uptime_secs: u64,
}

/// What happened in the fleet, by agent or action id.
#[derive(Debug, Clone)]
pub enum FleetEvent {
    AgentRegistered(String),
    AgentHeartbeat(String),
    ActionRequested(String),
    ActionCompleted(String),
}

/// The whole seconds from `started_at` to `now` (both in microseconds
/// since the Unix epoch), 0 when `now` is earlier.
pub open spec fn uptime_of(started_at: i64, now: i64) -> int {
    if now - started_at <= 0 { 0 } else { (now - started_at) / 1_000_000 }
}

/// The whole seconds the fleet has been up.
pub fn uptime_seconds(started_at: i64, now: i64) -> (s: u64)
    ensures
        s == uptime_of(started_at, now),
{
    if now <= started_at {
        0
    } else {
        let d = (now as i128) - (started_at as i128);
        (d / 1_000_000) as u64
    }
}

/// The log of remote actions asked of the fleet's agents, in the order
/// they were asked.
pub struct ActionLog {
    actions: Vec<RemoteActionRecord>,
}

impl ActionLog {
    /// The actions, oldest first.
    pub closed spec fn entries(&self) -> Seq<ActionModel> {
        actions_view(self.actions@)
    }

    /// An empty log.
    pub fn new() -> (l: ActionLog)
        ensures
            l.entries().len() == 0,
    {
        let l = ActionLog { actions: Vec::new() };
        assert(l.entries() =~= Seq::<ActionModel>::empty());
        l
    }

    /// The number of actions asked.
    pub fn len(&self) -> (n: usize)
        ensures
            n == self.entries().len(),
    {
        self.actions.len()
    }

    /// Records an action asked of `agent_id` under a fresh id, pending and
    /// stamped with the current time, and returns the id.
    pub fn request_action(&mut self, agent_id: String, action_type: String, params: Value) -> (id: String)
        ensures
            final(self).entries().len() == old(self).entries().len() + 1,
            final(self).entries().drop_last() == old(self).entries(),
            ({
                let a = final(self).entries().last();
                &&& a.action_id == id@
                &&& a.agent_id == agent_id@
                &&& a.action_type == action_type@
                &&& a.params == params@
                &&& a.status == "pending"@
                &&& a.result is None
                &&& a.error is None
                &&& a.completed_at is None
                &&& a.duration_ms is None
            }),
            exists|n: u128| id@ == uuid_text(n),
    {
        let n = new_id();
        let id = uuid_string(n);
        let ghost before = self.entries();
        let rec = RemoteActionRecord {
            action_id: id.clone(),
            agent_id,
            action_type,
            params,
            status: owned("pending"),
            result: None,
            error: None,
            created_at: now_micros(),
            completed_at: None,
            duration_ms: None,
        };
        self.actions.push(rec);
        assert(self.entries().drop_last() =~= before);
        id
    }

    /// Marks the first action with id `action_id` completed (or failed,
    /// without `success`), with its result, error and duration and the
    /// current time; the log is unchanged when no action has that id.
    pub fn complete_action(&mut self, action_id: &str, success: bool, result: Value, error: Option<String>, duration_ms: u64)
        ensures
            final(self).entries().len() == old(self).entries().len(),
            match action_pos(old(self).entries(), action_id@, 0) {
                None => final(self).entries() == old(self).entries(),
                Some(i) => final(self).entries()[i].completed_at matches Some(t)
                    && final(self).entries() == old(self).entries().update(i, completed_action(old(self).entries()[i], success,
                        result@, opt_text(error), t, duration_ms)),
            },
    {
        let ghost es = self.entries();
        let mut i: usize = 0;
        while i < self.actions.len()
            invariant
                i <= self.actions@.len(),
                es == self.entries(),
                es == old(self).entries(),
                action_pos(es, action_id@, 0) == action_pos(es, action_id@, i as int),
            decreases self.actions.len() - i,
        {
            assert(es[i as int] == self.actions@[i as int]@);
            if str_eq(self.actions[i].action_id.as_str(), action_id) {
                let ghost errv = opt_text(error);
                let ghost resv = result@;
                let t = now_micros();
                let old_rec = &self.actions[i];
                let rec = RemoteActionRecord {
                    action_id: old_rec.action_id.clone(),
                    agent_id: old_rec.agent_id.clone(),
                    action_type: old_rec.action_type.clone(),
                    params: old_rec.params.duplicate(),
                    status: if success { owned("completed") } else { owned("failed") },
                    result: Some(result),
                    error,
                    created_at: old_rec.created_at,
                    completed_at: Some(t),
                    duration_ms: Some(duration_ms),
                };
                assert(rec@ == completed_action(es[i as int], success, resv, errv, t, duration_ms));
                self.actions.set(i, rec);
                assert(self.entries() =~= es.update(i as int, completed_action(es[i as int], success, resv, errv, t, duration_ms)));
                return;
            }
            i += 1;
        }
    }

    /// The most recent actions, newest first, at most `limit` of them.
    pub fn action_list(&self, limit: usize) -> (r: Vec<RemoteActionRecord>)
        ensures
            r@.len() == if limit < self.entries().len() { limit as int } else { self.entries().len() as int },
            forall|k: int| 0 <= k < r@.len() ==> (#[trigger] r@[k])@ == self.entries()[self.entries().len() - 1 - k],
    {
        let n = self.actions.len();
        let mut r: Vec<RemoteActionRecord> = Vec::new();
        let mut k: usize = 0;
        while k < limit && k < n
            invariant
                n == self.actions@.len() == self.entries().len(),
                k <= n,
                k <= limit,
                r@.len() == k,
                forall|q: int| 0 <= q < k ==> (#[trigger] r@[q])@ == self.entries()[n - 1 - q],
            decreases n - k,
        {
            assert(self.entries()[n - 1 - k] == self.actions@[n - 1 - k]@);
            r.push(self.actions[n - 1 - k].duplicate());
            k += 1;
        }
        r
    }
}

} // verus!
