use timeless::automation::{
    AutomatedWorkflow, WorkflowAction, WorkflowCondition, ConditionOperator, WorkflowResult, WorkflowStep,
    WorkflowTrigger,
};
use timeless::scheduler::{
    CronSchedule, ExecutionStatus, ScheduledWorkflow, WorkflowScheduler, WorkflowType, DAY_MICROS,
};

fn workflow(id: u128, kind: WorkflowType, enabled: bool, last_run: Option<i64>) -> ScheduledWorkflow {
    ScheduledWorkflow {
        id,
        name: format!("wf{}", id),
        description: String::new(),
        schedule: CronSchedule { expression: "0 9 * * *".to_string(), timezone: "UTC".to_string() },
        workflow_type: kind,
        enabled,
        created_at: 0,
        last_run,
        next_run: None,
    }
}

fn step(action: WorkflowAction, params: &[(&str, &str)]) -> WorkflowStep {
    WorkflowStep {
        id: 1,
        name: "s".to_string(),
        action,
        parameters: params.iter().map(|(k, v)| (k.to_string(), v.to_string())).collect(),
        retry_count: 0,
        timeout_seconds: 30,
    }
}

#[test]
fn due_after_a_day_or_never_run() {
    let s = WorkflowScheduler::new();
    assert!(s.is_workflow_due(&workflow(1, WorkflowType::DataBackup, true, None), 0));
    let w = workflow(1, WorkflowType::DataBackup, true, Some(1_000));
    assert!(!s.is_workflow_due(&w, 1_000 + DAY_MICROS - 1));
    assert!(s.is_workflow_due(&w, 1_000 + DAY_MICROS));
    assert!(!s.is_workflow_due(&w, 0));
    assert_eq!(s.calculate_next_run(&w, 5), Some(5 + DAY_MICROS));
    assert_eq!(s.calculate_next_run(&w, i64::MAX), None);
}

#[test]
fn round_runs_enabled_due_workflows_in_order() {
    let mut s = WorkflowScheduler::default();
    s.add_workflow(workflow(1, WorkflowType::ReportGeneration, true, None));
    s.add_workflow(workflow(2, WorkflowType::DataBackup, false, None));
    s.add_workflow(workflow(3, WorkflowType::TeamAnalysis, true, Some(100)));
    s.add_workflow(workflow(4, WorkflowType::NotificationSend, true, Some(-DAY_MICROS)));
    let runs = s.run_due_workflows_at(200);
    let ids: Vec<u128> = runs.iter().map(|e| e.workflow_id).collect();
    assert_eq!(ids, vec![1, 4]);
    assert_eq!(runs[0].result.as_deref(), Some("Report generated"));
    assert_eq!(runs[1].result.as_deref(), Some("Notifications sent"));
    assert!(runs.iter().all(|e| e.status == ExecutionStatus::Completed && e.completed_at.is_some()));
    let ws = s.list_workflows();
    assert_eq!(ws[0].last_run, Some(200));
    assert_eq!(ws[0].next_run, Some(200 + DAY_MICROS));
    assert_eq!(ws[1].last_run, None);
    assert_eq!(ws[2].last_run, Some(100));
    assert_eq!(ws[3].last_run, Some(200));
    assert_eq!(s.execution_history().len(), 2);
    assert_eq!(s.get_workflow_history(4).len(), 1);
    assert_eq!(s.get_workflow_history(3).len(), 0);
    let recent: Vec<u128> = s.get_recent_executions(5).iter().map(|e| e.workflow_id).collect();
    assert_eq!(recent, vec![4, 1]);
}

#[test]
fn add_replaces_and_remove_returns() {
    let mut s = WorkflowScheduler::new();
    s.add_workflow(workflow(1, WorkflowType::ReportGeneration, true, None));
    s.add_workflow(workflow(1, WorkflowType::DataBackup, true, None));
    assert_eq!(s.list_workflows().len(), 1);
    assert_eq!(s.list_workflows()[0].workflow_type, WorkflowType::DataBackup);
    assert_eq!(s.remove_workflow(1).map(|w| w.id), Some(1));
    assert!(s.remove_workflow(1).is_none());
    assert!(s.list_workflows().is_empty());
}

#[test]
fn check_and_run_uses_current_time() {
    let mut s = WorkflowScheduler::new();
    s.add_workflow(workflow(9, WorkflowType::StatusCollection, true, None));
    let runs = s.check_and_run_due_workflows();
    assert_eq!(runs.len(), 1);
    assert!(s.list_workflows()[0].last_run.is_some());
    assert!(s.check_and_run_due_workflows().is_empty());
}

#[test]
fn step_reports_with_parameters_and_defaults() {
    let w = AutomatedWorkflow::new("w".to_string(), "d".to_string());
    assert_eq!(
        w.execute_step(&step(WorkflowAction::SendSlackMessage, &[("channel", "#team")])),
        "Sent Slack message to #team: Automated message"
    );
    assert_eq!(
        w.execute_step(&step(WorkflowAction::SendEmail, &[("subject", "Hi"), ("to", "a@b")])),
        "Sent email to a@b with subject: Hi"
    );
    assert_eq!(w.execute_step(&step(WorkflowAction::GenerateReport, &[])), "Generated daily report");
    assert_eq!(w.execute_step(&step(WorkflowAction::UpdateJira, &[("ticket", "T-1")])), "Updated Jira ticket: T-1");
    assert_eq!(w.execute_step(&step(WorkflowAction::NotifyManager, &[])), "Notified manager: manager@company.com");
    assert_eq!(w.execute_step(&step(WorkflowAction::CreateBackup, &[])), "Data backup created");
}

#[test]
fn execute_skips_or_runs_all_steps() {
    let mut w = AutomatedWorkflow::new("w".to_string(), "d".to_string());
    w.add_step(step(WorkflowAction::CollectStatus, &[]));
    w.add_step(step(WorkflowAction::AnalyzeTeam, &[]));
    w.add_trigger(WorkflowTrigger::StatusUpdate);
    w.add_condition(WorkflowCondition {
        field: "x".to_string(),
        operator: ConditionOperator::Equals,
        value: "1".to_string(),
    });
    assert_eq!(w.execute(false), WorkflowResult::Skipped("Conditions not met".to_string()));
    match w.execute(true) {
        WorkflowResult::Completed(rs) => {
            assert_eq!(rs.len(), 2);
            assert_eq!(rs[0].result.as_deref(), Some("Status collection initiated"));
            assert_eq!(rs[1].result.as_deref(), Some("Team analysis completed"));
            assert!(rs.iter().all(|r| r.success && r.error.is_none()));
        }
        other => panic!("unexpected {:?}", other),
    }
    w.enabled = false;
    assert_eq!(w.execute(true), WorkflowResult::Skipped("Workflow is disabled".to_string()));
}
