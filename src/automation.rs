use vstd::prelude::*;

use crate::ids::{new_id, EntityId};
use crate::text::concat;

verus! {

#[derive(Debug, Clone, Copy, PartialEq, Eq, Structural)]
pub enum WorkflowAction {
    SendSlackMessage,
    SendEmail,
    CollectStatus,
    GenerateReport,
    AnalyzeTeam,
    UpdateJira,
    CreateBackup,
    NotifyManager,
    RunClaudeAnalysis,
}

/// What starts a workflow. A metric threshold is kept as the bit pattern of a
/// single-precision float.
#[derive(Debug, Clone, PartialEq)]
pub enum WorkflowTrigger {
    TimeSchedule(String),
    StatusUpdate,
    TeamMemberJoined,
    ProjectCompleted,
    RiskDetected,
    MetricThreshold(String, u32),
}

#[derive(Debug, Clone, Copy, PartialEq, Eq, Structural)]
pub enum ConditionOperator {
    Equals,
    NotEquals,
    GreaterThan,
    LessThan,
    Contains,
    NotContains,
}

#[derive(Debug, Clone, PartialEq)]
pub struct WorkflowCondition {
    pub field: String,
    pub operator: ConditionOperator,
    pub value: String,
}

/// One action of a workflow with its named parameters.
#[derive(Debug, Clone, PartialEq)]
pub struct WorkflowStep {
    pub id: EntityId,
    pub name: String,
    pub action: WorkflowAction,
    pub parameters: Vec<(String, String)>,
    pub retry_count: u32,
    pub timeout_seconds: u32,
}

#[derive(Debug, Clone, PartialEq)]
pub struct StepResult {
    pub step_id: EntityId,
    pub success: bool,
    pub result: Option<String>,
    pub error: Option<String>,
}

#[derive(Debug, Clone, PartialEq)]
pub enum WorkflowResult {
    Completed(Vec<StepResult>),
    Failed(String),
    Skipped(String),
}

/// A sequence of steps run when triggered and when its conditions hold.
#[derive(Debug, Clone, PartialEq)]
pub struct AutomatedWorkflow {
    pub id: EntityId,
    pub name: String,
    pub description: String,
    pub steps: Vec<WorkflowStep>,
    pub triggers: Vec<WorkflowTrigger>,
    pub conditions: Vec<WorkflowCondition>,
    pub enabled: bool,
}

/// The value of the first parameter named `key`, if any.
pub open spec fn param(ps: Seq<(String, String)>, key: Seq<char>) -> Option<Seq<char>>
    decreases ps.len(),
{
    if ps.len() == 0 {
        None
    } else if ps[0].0@ == key {
        Some(ps[0].1@)
    } else {
        param(ps.drop_first(), key)
    }
}

/// The value of parameter `key`, or `default` when it is not set.
pub open spec fn param_or(ps: Seq<(String, String)>, key: Seq<char>, default: Seq<char>) -> Seq<
    char,
> {
    match param(ps, key) {
        Some(v) => v,
        None => default,
    }
}

/// What a step with action `a` and parameters `ps` reports.
pub open spec fn step_report(a: WorkflowAction, ps: Seq<(String, String)>) -> Seq<char> {
    match a {
        WorkflowAction::SendSlackMessage => "Sent Slack message to "@ + param_or(
            ps,
            "channel"@,
            "#general"@,
        ) + ": "@ + param_or(ps, "message"@, "Automated message"@),
        WorkflowAction::SendEmail => "Sent email to "@ + param_or(ps, "to"@, "team@company.com"@)
            + " with subject: "@ + param_or(ps, "subject"@, "Automated Email"@),
        WorkflowAction::CollectStatus => "Status collection initiated"@,
        WorkflowAction::GenerateReport => "Generated "@ + param_or(ps, "type"@, "daily"@)
            + " report"@,
        WorkflowAction::AnalyzeTeam => "Team analysis completed"@,
        WorkflowAction::UpdateJira => "Updated Jira ticket: "@ + param_or(
            ps,
            "ticket"@,
            "UNKNOWN"@,
        ),
        WorkflowAction::CreateBackup => "Data backup created"@,
        WorkflowAction::NotifyManager => "Notified manager: "@ + param_or(
            ps,
            "manager"@,
            "manager@company.com"@,
        ),
        WorkflowAction::RunClaudeAnalysis => "AI analysis completed: "@ + param_or(
            ps,
            "analysis_type"@,
            "general"@,
        ),
    }
}

/// `r` reports, in order, the successful run of each of `steps`.
pub open spec fn reports_steps(r: Seq<StepResult>, steps: Seq<WorkflowStep>) -> bool {
    &&& r.len() == steps.len()
    &&& forall|i: int|
        0 <= i < r.len() ==> {
            &&& (#[trigger] r[i]).step_id == steps[i].id
            &&& r[i].success
            &&& r[i].error is None
            &&& r[i].result is Some
            &&& r[i].result->0@ == step_report(steps[i].action, steps[i].parameters@)
        }
}

/// The value of parameter `key` of `ps`, or `default`.
fn param_value(ps: &Vec<(String, String)>, key: &str, default: &str) -> (r: String)
    ensures
        r@ == param_or(ps@, key@, default@),
{
    let ghost all = ps@;
    let mut i: usize = 0;
    let k = key.to_owned();
    assert(all.skip(0) =~= all);
    while i < ps.len()
        invariant
            all == ps@,
            i <= all.len(),
            k@ == key@,
            param(all, key@) == param(all.skip(i as int), key@),
        decreases all.len() - i,
    {
        assert(all.skip(i as int).drop_first() =~= all.skip(i + 1));
        if ps[i].0 == k {
            return ps[i].1.clone();
        }
        i = i + 1;
    }
    default.to_owned()
}

/// `a`, `b` and `c` one after another.
fn join3(a: &str, b: &str, c: &str) -> (r: String)
    ensures
        r@ == a@ + b@ + c@,
{
    let ab = concat(a, b);
    concat(ab.as_str(), c)
}

impl AutomatedWorkflow {
    /// An enabled workflow with a fresh identifier and no steps, triggers or
    /// conditions.
    pub fn new(name: String, description: String) -> (r: Self)
        ensures
            r.name == name,
            r.description == description,
            r.steps@.len() == 0,
            r.triggers@.len() == 0,
            r.conditions@.len() == 0,
            r.enabled,
    {
        AutomatedWorkflow {
            id: new_id(),
            name,
            description,
            steps: Vec::new(),
            triggers: Vec::new(),
            conditions: Vec::new(),
            enabled: true,
        }
    }

    /// Appends a step.
    pub fn add_step(&mut self, step: WorkflowStep)
        ensures
            final(self).steps@ == old(self).steps@.push(step),
            final(self).triggers == old(self).triggers,
            final(self).conditions == old(self).conditions,
            final(self).enabled == old(self).enabled,
    {
        self.steps.push(step);
    }

    /// Appends a trigger.
    pub fn add_trigger(&mut self, trigger: WorkflowTrigger)
        ensures
            final(self).triggers@ == old(self).triggers@.push(trigger),
            final(self).steps == old(self).steps,
            final(self).conditions == old(self).conditions,
            final(self).enabled == old(self).enabled,
    {
        self.triggers.push(trigger);
    }

    /// Appends a condition.
    pub fn add_condition(&mut self, condition: WorkflowCondition)
        ensures
            final(self).conditions@ == old(self).conditions@.push(condition),
            final(self).steps == old(self).steps,
            final(self).triggers == old(self).triggers,
            final(self).enabled == old(self).enabled,
    {
        self.conditions.push(condition);
    }

    /// Carries out `step` and reports what it did.
    pub fn execute_step(&self, step: &WorkflowStep) -> (r: String)
        ensures
            r@ == step_report(step.action, step.parameters@),
    {
        let ps = &step.parameters;
        proof {
            reveal_strlit("Sent Slack message to ");
            reveal_strlit(": ");
            reveal_strlit("Sent email to ");
            reveal_strlit(" with subject: ");
            reveal_strlit("Status collection initiated");
            reveal_strlit("Generated ");
            reveal_strlit(" report");
            reveal_strlit("Team analysis completed");
            reveal_strlit("Updated Jira ticket: ");
            reveal_strlit("Data backup created");
            reveal_strlit("Notified manager: ");
            reveal_strlit("AI analysis completed: ");
        }
        match step.action {
            WorkflowAction::SendSlackMessage => {
                let channel = param_value(ps, "channel", "#general");
                let message = param_value(ps, "message", "Automated message");
                let head = join3("Sent Slack message to ", channel.as_str(), ": ");
                concat(head.as_str(), message.as_str())
            },
            WorkflowAction::SendEmail => {
                let to = param_value(ps, "to", "team@company.com");
                let subject = param_value(ps, "subject", "Automated Email");
                let head = join3("Sent email to ", to.as_str(), " with subject: ");
                concat(head.as_str(), subject.as_str())
            },
            WorkflowAction::CollectStatus => "Status collection initiated".to_owned(),
            WorkflowAction::GenerateReport => {
                let kind = param_value(ps, "type", "daily");
                join3("Generated ", kind.as_str(), " report")
            },
            WorkflowAction::AnalyzeTeam => "Team analysis completed".to_owned(),
            WorkflowAction::UpdateJira => {
                let ticket = param_value(ps, "ticket", "UNKNOWN");
                concat("Updated Jira ticket: ", ticket.as_str())
            },
            WorkflowAction::CreateBackup => "Data backup created".to_owned(),
            WorkflowAction::NotifyManager => {
                let manager = param_value(ps, "manager", "manager@company.com");
                concat("Notified manager: ", manager.as_str())
            },
            WorkflowAction::RunClaudeAnalysis => {
                let kind = param_value(ps, "analysis_type", "general");
                concat("AI analysis completed: ", kind.as_str())
            },
        }
    }

    /// Runs the workflow once `conditions_met` tells whether its conditions hold:
    /// a disabled workflow, or one whose conditions fail, is skipped; otherwise
    /// every step runs in order.
    pub fn execute(&self, conditions_met: bool) -> (r: WorkflowResult)
        ensures
            !self.enabled ==> (r matches WorkflowResult::Skipped(m) && m@ == "Workflow is disabled"@),
            self.enabled && !conditions_met ==> (r matches WorkflowResult::Skipped(m) && m@
                == "Conditions not met"@),
            self.enabled && conditions_met ==> (r matches WorkflowResult::Completed(rs)
                && reports_steps(rs@, self.steps@)),
    {
        proof {
            reveal_strlit("Workflow is disabled");
            reveal_strlit("Conditions not met");
        }
        if !self.enabled {
            return WorkflowResult::Skipped("Workflow is disabled".to_owned());
        }
        if !conditions_met {
            return WorkflowResult::Skipped("Conditions not met".to_owned());
        }
        let mut results: Vec<StepResult> = Vec::new();
        let mut i: usize = 0;
        while i < self.steps.len()
            invariant
                i <= self.steps@.len(),
                reports_steps(results@, self.steps@.subrange(0, i as int)),
            decreases self.steps@.len() - i,
        {
            let step = &self.steps[i];
            let report = self.execute_step(step);
            results.push(StepResult { step_id: step.id, success: true, result: Some(report), error: None });
            i = i + 1;
        }
        assert(self.steps@.subrange(0, self.steps@.len() as int) =~= self.steps@);
        WorkflowResult::Completed(results)
    }
}

} // verus!
