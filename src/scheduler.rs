use vstd::prelude::*;

use crate::clock::{now, Timestamp};
use crate::collection::deref_all;
use crate::ids::{new_id, EntityId};

verus! {

/// One day in microseconds.
pub const DAY_MICROS: i64 = 86_400_000_000;

#[derive(Debug, Clone, PartialEq)]
pub struct CronSchedule {
    pub expression: String,
    pub timezone: String,
}

#[derive(Debug, Clone, Copy, PartialEq, Eq, Structural)]
pub enum WorkflowType {
    StatusCollection,
    TeamAnalysis,
    ReportGeneration,
    RiskMonitoring,
    NotificationSend,
    DataBackup,
}

#[derive(Debug, Clone, Copy, PartialEq, Eq, Structural)]
pub enum ExecutionStatus {
    Pending,
    Running,
    Completed,
    Failed,
    Cancelled,
}

#[derive(Debug, Clone, PartialEq)]
pub struct ScheduledWorkflow {
    pub id: EntityId,
    pub name: String,
    pub description: String,
    pub schedule: CronSchedule,
    pub workflow_type: WorkflowType,
    pub enabled: bool,
    pub created_at: Timestamp,
    pub last_run: Option<Timestamp>,
    pub next_run: Option<Timestamp>,
}

#[derive(Debug, Clone, PartialEq)]
pub struct WorkflowExecution {
    pub id: EntityId,
    pub workflow_id: EntityId,
    pub started_at: Timestamp,
    pub completed_at: Option<Timestamp>,
    pub status: ExecutionStatus,
    pub result: Option<String>,
    pub error_message: Option<String>,
}

/// A workflow is due when it never ran, or when a day or more has passed since
/// its last run.
pub open spec fn due(w: ScheduledWorkflow, at: Timestamp) -> bool {
    match w.last_run {
        None => true,
        Some(last) => at - last >= DAY_MICROS,
    }
}

/// Enabled and due.
pub open spec fn runnable(at: Timestamp) -> spec_fn(ScheduledWorkflow) -> bool {
    |w: ScheduledWorkflow| w.enabled && due(w, at)
}

/// The next run, a day after `at`, when that time can be written.
pub open spec fn next_run_after(at: Timestamp) -> Option<Timestamp> {
    if at + DAY_MICROS <= i64::MAX {
        Some((at + DAY_MICROS) as i64)
    } else {
        None
    }
}

/// `w` marked as run at `at`.
pub open spec fn ran_at(w: ScheduledWorkflow, at: Timestamp) -> ScheduledWorkflow {
    ScheduledWorkflow { last_run: Some(at), next_run: next_run_after(at), ..w }
}

/// The workflows after a round at time `at`: each runnable one marked as run.
pub open spec fn after_round(ws: Seq<ScheduledWorkflow>, at: Timestamp) -> Seq<ScheduledWorkflow> {
    ws.map_values(|w: ScheduledWorkflow| if runnable(at)(w) { ran_at(w, at) } else { w })
}

/// What running a workflow of type `t` reports.
pub open spec fn outcome_text(t: WorkflowType) -> Seq<char> {
    match t {
        WorkflowType::StatusCollection => "Status collection completed"@,
        WorkflowType::TeamAnalysis => "Team analysis completed"@,
        WorkflowType::ReportGeneration => "Report generated"@,
        WorkflowType::RiskMonitoring => "Risk monitoring completed"@,
        WorkflowType::NotificationSend => "Notifications sent"@,
        WorkflowType::DataBackup => "Data backup completed"@,
    }
}

/// `e` records a completed run of `w`.
pub open spec fn completed_run_of(e: WorkflowExecution, w: ScheduledWorkflow) -> bool {
    &&& e.workflow_id == w.id
    &&& e.status == ExecutionStatus::Completed
    &&& e.completed_at is Some
    &&& e.error_message is None
    &&& e.result is Some
    &&& e.result->0@ == outcome_text(w.workflow_type)
}

/// The executions of workflow `id`, in order.
pub open spec fn history_of(h: Seq<WorkflowExecution>, id: EntityId) -> Seq<WorkflowExecution> {
    h.filter(|e: WorkflowExecution| e.workflow_id == id)
}

/// The last `count` of `h` (all of them when there are fewer), newest first.
pub open spec fn newest_executions(h: Seq<WorkflowExecution>, count: nat) -> Seq<WorkflowExecution> {
    let k = if count < h.len() {
        count as int
    } else {
        h.len() as int
    };
    Seq::new(k as nat, |i: int| h[h.len() - 1 - i])
}

/// No two workflows share an identifier.
pub open spec fn unique_ids(ws: Seq<ScheduledWorkflow>) -> bool {
    forall|i: int, j: int| 0 <= i < j < ws.len() ==> ws[i].id != ws[j].id
}

/// `ws` with `w` in place of the workflow with the same identifier, or with `w`
/// appended when there is none.
pub open spec fn with_workflow(ws: Seq<ScheduledWorkflow>, w: ScheduledWorkflow) -> Seq<
    ScheduledWorkflow,
> {
    if exists|i: int| 0 <= i < ws.len() && #[trigger] ws[i].id == w.id {
        ws.update(choose|i: int| 0 <= i < ws.len() && #[trigger] ws[i].id == w.id, w)
    } else {
        ws.push(w)
    }
}

impl CronSchedule {
    /// An equal copy.
    pub fn copy(&self) -> (r: Self)
        ensures
            r == *self,
    {
        CronSchedule { expression: self.expression.clone(), timezone: self.timezone.clone() }
    }
}

impl ScheduledWorkflow {
    /// An equal copy.
    pub fn copy(&self) -> (r: Self)
        ensures
            r == *self,
    {
        ScheduledWorkflow {
            id: self.id,
            name: self.name.clone(),
            description: self.description.clone(),
            schedule: self.schedule.copy(),
            workflow_type: self.workflow_type,
            enabled: self.enabled,
            created_at: self.created_at,
            last_run: self.last_run,
            next_run: self.next_run,
        }
    }
}

fn copy_text(s: &Option<String>) -> (r: Option<String>)
    ensures
        r == *s,
{
    match s {
        Some(t) => Some(t.clone()),
        None => None,
    }
}

impl WorkflowExecution {
    /// An equal copy.
    pub fn copy(&self) -> (r: Self)
        ensures
            r == *self,
    {
        WorkflowExecution {
            id: self.id,
            workflow_id: self.workflow_id,
            started_at: self.started_at,
            completed_at: self.completed_at,
            status: self.status,
            result: copy_text(&self.result),
            error_message: copy_text(&self.error_message),
        }
    }
}

/// Workflows that run on a schedule, and the record of their runs.
pub struct WorkflowScheduler {
    workflows: Vec<ScheduledWorkflow>,
    execution_history: Vec<WorkflowExecution>,
}

impl WorkflowScheduler {
    /// The scheduled workflows, in the order they were added.
    pub closed spec fn workflows(&self) -> Seq<ScheduledWorkflow> {
        self.workflows@
    }

    /// The recorded runs, oldest first.
    pub closed spec fn history(&self) -> Seq<WorkflowExecution> {
        self.execution_history@
    }

    /// Identifiers are unique.
    pub open spec fn wf(&self) -> bool {
        unique_ids(self.workflows())
    }

    /// No workflows and no history.
    pub fn new() -> (r: Self)
        ensures
            r.wf(),
            r.workflows().len() == 0,
            r.history().len() == 0,
    {
        WorkflowScheduler { workflows: Vec::new(), execution_history: Vec::new() }
    }

    /// The scheduled workflows, in the order they were added.
    pub fn list_workflows(&self) -> (r: &Vec<ScheduledWorkflow>)
        ensures
            r@ == self.workflows(),
    {
        &self.workflows
    }

    /// The recorded runs, oldest first.
    pub fn execution_history(&self) -> (r: &Vec<WorkflowExecution>)
        ensures
            r@ == self.history(),
    {
        &self.execution_history
    }

    /// Schedules `workflow`, replacing one with the same identifier.
    pub fn add_workflow(&mut self, workflow: ScheduledWorkflow)
        requires
            old(self).wf(),
        ensures
            final(self).wf(),
            final(self).workflows() == with_workflow(old(self).workflows(), workflow),
            final(self).history() == old(self).history(),
    {
        let ghost ws = self.workflows@;
        let mut i: usize = 0;
        while i < self.workflows.len()
            invariant
                ws == self.workflows@,
                ws == old(self).workflows(),
                unique_ids(ws),
                i <= ws.len(),
                forall|j: int| 0 <= j < i ==> ws[j].id != workflow.id,
                self.execution_history == old(self).execution_history,
            decreases ws.len() - i,
        {
            if self.workflows[i].id == workflow.id {
                let ghost c = choose|j: int| 0 <= j < ws.len() && #[trigger] ws[j].id == workflow.id;
                assert(ws[i as int].id == workflow.id);
                assert(c == i) by {
                    if c < i {
                        assert(ws[c].id != ws[i as int].id);
                    } else if c > i {
                        assert(ws[i as int].id != ws[c].id);
                    }
                };
                self.workflows.set(i, workflow);
                assert(self.workflows@ =~= ws.update(c, workflow));
                assert forall|a: int, b: int| 0 <= a < b < self.workflows@.len() implies self.workflows@[a].id
                    != self.workflows@[b].id by {
                    assert(ws[a].id != ws[b].id);
                };
                return;
            }
            i = i + 1;
        }
        self.workflows.push(workflow);
        assert forall|a: int, b: int| 0 <= a < b < self.workflows@.len() implies self.workflows@[a].id
            != self.workflows@[b].id by {
            if b == ws.len() {
                assert(ws[a].id != workflow.id);
            }
        };
    }

    /// Unschedules the workflow with identifier `workflow_id` and returns it.
    pub fn remove_workflow(&mut self, workflow_id: EntityId) -> (r: Option<ScheduledWorkflow>)
        requires
            old(self).wf(),
        ensures
            final(self).wf(),
            final(self).history() == old(self).history(),
            match r {
                Some(w) => w.id == workflow_id && exists|i: int|
                    0 <= i < old(self).workflows().len() && old(self).workflows()[i] == w
                        && final(self).workflows() == old(self).workflows().remove(i),
                None => final(self).workflows() == old(self).workflows() && forall|i: int|
                    0 <= i < old(self).workflows().len() ==> (#[trigger] old(
                        self,
                    ).workflows()[i]).id != workflow_id,
            },
    {
        let ghost ws = self.workflows@;
        let mut i: usize = 0;
        while i < self.workflows.len()
            invariant
                ws == self.workflows@,
                ws == old(self).workflows(),
                unique_ids(ws),
                i <= ws.len(),
                forall|j: int| 0 <= j < i ==> (#[trigger] ws[j]).id != workflow_id,
                self.execution_history == old(self).execution_history,
            decreases ws.len() - i,
        {
            if self.workflows[i].id == workflow_id {
                let w = self.workflows.remove(i);
                assert forall|a: int, b: int| 0 <= a < b < self.workflows@.len() implies self.workflows@[a].id
                    != self.workflows@[b].id by {
                    let a2 = if a < i {
                        a
                    } else {
                        a + 1
                    };
                    let b2 = if b < i {
                        b
                    } else {
                        b + 1
                    };
                    assert(self.workflows@[a] == ws[a2] && self.workflows@[b] == ws[b2]);
                };
                assert(ws[i as int] == w && self.workflows@ == ws.remove(i as int));
                return Some(w);
            }
            i = i + 1;
        }
        None
    }

    /// Whether `workflow` is due at time `current_time`.
    pub fn is_workflow_due(&self, workflow: &ScheduledWorkflow, current_time: Timestamp) -> (r: bool)
        ensures
            r == due(*workflow, current_time),
    {
        match workflow.last_run {
            None => true,
            Some(last) => (current_time as i128) - (last as i128) >= DAY_MICROS as i128,
        }
    }

    /// When `workflow` runs next after running at `current_time`: a day later.
    pub fn calculate_next_run(&self, workflow: &ScheduledWorkflow, current_time: Timestamp) -> (r:
        Option<Timestamp>)
        ensures
            r == next_run_after(current_time),
    {
        current_time.checked_add(DAY_MICROS)
    }

    /// Runs `workflow` and records the run.
    fn execute_workflow(&mut self, workflow: &ScheduledWorkflow) -> (r: WorkflowExecution)
        ensures
            completed_run_of(r, *workflow),
            final(self).history() == old(self).history().push(r),
            final(self).workflows() == old(self).workflows(),
    {
        let started_at = now();
        let text = match workflow.workflow_type {
            WorkflowType::StatusCollection => "Status collection completed",
            WorkflowType::TeamAnalysis => "Team analysis completed",
            WorkflowType::ReportGeneration => "Report generated",
            WorkflowType::RiskMonitoring => "Risk monitoring completed",
            WorkflowType::NotificationSend => "Notifications sent",
            WorkflowType::DataBackup => "Data backup completed",
        };
        let execution = WorkflowExecution {
            id: new_id(),
            workflow_id: workflow.id,
            started_at,
            completed_at: Some(now()),
            status: ExecutionStatus::Completed,
            result: Some(text.to_owned()),
            error_message: None,
        };
        proof {
            reveal_strlit("Status collection completed");
            reveal_strlit("Team analysis completed");
            reveal_strlit("Report generated");
            reveal_strlit("Risk monitoring completed");
            reveal_strlit("Notifications sent");
            reveal_strlit("Data backup completed");
        }
        self.execution_history.push(execution.copy());
        execution
    }

    /// Runs, at time `at`, every enabled workflow that is due, in order, marking
    /// each as run at `at`, and returns the runs.
    pub fn run_due_workflows_at(&mut self, at: Timestamp) -> (r: Vec<WorkflowExecution>)
        requires
            old(self).wf(),
        ensures
            final(self).wf(),
            final(self).workflows() == after_round(old(self).workflows(), at),
            final(self).history() == old(self).history() + r@,
            r@.len() == old(self).workflows().filter(runnable(at)).len(),
            forall|k: int|
                0 <= k < r@.len() ==> completed_run_of(
                    #[trigger] r@[k],
                    old(self).workflows().filter(runnable(at))[k],
                ),
    {
        let ghost ws = self.workflows@;
        let ghost h0 = self.execution_history@;
        let mut runs: Vec<WorkflowExecution> = Vec::new();
        let mut i: usize = 0;
        while i < self.workflows.len()
            invariant
                ws.len() == self.workflows@.len(),
                unique_ids(ws),
                i <= ws.len(),
                forall|j: int| 0 <= j < i ==> self.workflows@[j] == after_round(ws, at)[j],
                forall|j: int| i <= j < ws.len() ==> self.workflows@[j] == ws[j],
                forall|j: int| 0 <= j < ws.len() ==> (#[trigger] self.workflows@[j]).id == ws[j].id,
                self.execution_history@ == h0 + runs@,
                runs@.len() == ws.subrange(0, i as int).filter(runnable(at)).len(),
                forall|k: int|
                    0 <= k < runs@.len() ==> completed_run_of(
                        #[trigger] runs@[k],
                        ws.subrange(0, i as int).filter(runnable(at))[k],
                    ),
            decreases ws.len() - i,
        {
            let w = self.workflows[i].copy();
            assert(w == ws[i as int]);
            let ghost prefix = ws.subrange(0, i as int);
            assert(ws.subrange(0, i + 1) =~= prefix.push(w));
            proof {
                prefix.lemma_filter_push(w, runnable(at));
            }
            if w.enabled && self.is_workflow_due(&w, at) {
                let ghost before = runs@;
                let e = self.execute_workflow(&w);
                runs.push(e.copy());
                assert(self.execution_history@ =~= h0 + runs@);
                assert forall|k: int| 0 <= k < runs@.len() implies completed_run_of(
                    #[trigger] runs@[k],
                    ws.subrange(0, i + 1).filter(runnable(at))[k],
                ) by {
                    if k < before.len() {
                        assert(runs@[k] == before[k]);
                    }
                };
                let next = self.calculate_next_run(&w, at);
                let mut updated = w;
                updated.last_run = Some(at);
                updated.next_run = next;
                self.workflows.set(i, updated);
            }
            i = i + 1;
        }
        assert(ws.subrange(0, ws.len() as int) =~= ws);
        assert(self.workflows@ =~= after_round(ws, at));
        runs
    }

    /// Runs every enabled workflow that is due now.
    pub fn check_and_run_due_workflows(&mut self) -> (r: Vec<WorkflowExecution>)
        requires
            old(self).wf(),
        ensures
            final(self).wf(),
            exists|at: Timestamp|
                final(self).workflows() == after_round(old(self).workflows(), at)
                    && r@.len() == old(self).workflows().filter(runnable(at)).len(),
            final(self).history() == old(self).history() + r@,
    {
        let at = now();
        self.run_due_workflows_at(at)
    }

    /// The recorded runs of workflow `workflow_id`, in order.
    pub fn get_workflow_history(&self, workflow_id: EntityId) -> (r: Vec<&WorkflowExecution>)
        ensures
            deref_all(r@) == history_of(self.history(), workflow_id),
    {
        let ghost h = self.execution_history@;
        let mut r: Vec<&WorkflowExecution> = Vec::new();
        let mut i: usize = 0;
        while i < self.execution_history.len()
            invariant
                h == self.execution_history@,
                i <= h.len(),
                deref_all(r@) == history_of(h.subrange(0, i as int), workflow_id),
            decreases h.len() - i,
        {
            let e = &self.execution_history[i];
            assert(h.subrange(0, i + 1) =~= h.subrange(0, i as int).push(*e));
            proof {
                h.subrange(0, i as int).lemma_filter_push(
                    *e,
                    |x: WorkflowExecution| x.workflow_id == workflow_id,
                );
            }
            if e.workflow_id == workflow_id {
                r.push(e);
            }
            assert(deref_all(r@) =~= history_of(h.subrange(0, i + 1), workflow_id));
            i = i + 1;
        }
        assert(h.subrange(0, h.len() as int) =~= h);
        r
    }

    /// The last `count` runs, newest first.
    pub fn get_recent_executions(&self, count: usize) -> (r: Vec<&WorkflowExecution>)
        ensures
            deref_all(r@) == newest_executions(self.history(), count as nat),
    {
        let ghost h = self.execution_history@;
        let n = self.execution_history.len();
        let mut r: Vec<&WorkflowExecution> = Vec::new();
        let mut i: usize = 0;
        while i < count && i < n
            invariant
                n == h.len(),
                h == self.execution_history@,
                i <= n,
                i <= count,
                r@.len() == i,
                forall|j: int| 0 <= j < i ==> *(#[trigger] r@[j]) == h[n - 1 - j],
            decreases n - i,
        {
            r.push(&self.execution_history[n - 1 - i]);
            i = i + 1;
        }
        assert(deref_all(r@) =~= newest_executions(h, count as nat));
        r
    }
}

impl Default for WorkflowScheduler {
    /// No workflows and no history.
    fn default() -> (r: Self)
        ensures
            r.wf(),
            r.workflows().len() == 0,
            r.history().len() == 0,
    {
        WorkflowScheduler::new()
    }
}

} // verus!
