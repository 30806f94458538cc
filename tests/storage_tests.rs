use timeless::models::{AIDecision, Conversation, Project, ProjectStatus, StatusUpdate, TeamMember, TeamMetrics};
use timeless::repository::TeamRepository;

fn fresh_member_id() -> u128 {
    TeamMember::new(String::new(), String::new(), String::new()).id
}

#[test]
fn test_team_member_crud() {
    let mut repo = TeamRepository::new("./data");

    let member = TeamMember::new(
        "John Doe".to_string(),
        "john@example.com".to_string(),
        "Developer".to_string(),
    );
    let member_id = member.id;

    repo.save_team_member(member);

    let retrieved = repo.get_team_member(member_id);
    assert!(retrieved.is_some());
    let retrieved_member = retrieved.unwrap();
    assert_eq!(retrieved_member.name, "John Doe");
    assert_eq!(retrieved_member.email, "john@example.com");
    assert_eq!(retrieved_member.role, "Developer");

    let members = repo.list_team_members();
    assert_eq!(members.len(), 1);

    let removed = repo.remove_team_member(member_id);
    assert!(removed.is_some());

    let members_after_removal = repo.list_team_members();
    assert_eq!(members_after_removal.len(), 0);
}

#[test]
fn test_project_operations() {
    let mut repo = TeamRepository::new("./data");

    let mut project = Project::new("Test Project".to_string(), "A test project".to_string());
    let project_id = project.id;

    repo.save_project(project.clone());

    let retrieved = repo.get_project(project_id);
    assert!(retrieved.is_some());
    let retrieved_project = retrieved.unwrap();
    assert_eq!(retrieved_project.name, "Test Project");
    assert!(retrieved_project.is_active());

    project.set_status(ProjectStatus::Completed);
    repo.save_project(project);

    let updated_project = repo.get_project(project_id).unwrap();
    assert!(!updated_project.is_active());
    assert!(matches!(updated_project.status, ProjectStatus::Completed));
}

#[test]
fn test_status_updates() {
    let mut repo = TeamRepository::new("./data");

    let member_id = fresh_member_id();

    let mut status1 = StatusUpdate::new(member_id, "Working on feature A".to_string());
    status1.add_achievement("Completed design".to_string());
    status1.add_blocker("Waiting for API".to_string());

    let status2 = StatusUpdate::new(member_id, "Working on feature B".to_string());

    assert!(status1.has_blockers());
    assert!(!status2.has_blockers());

    repo.save_status_update(status1);
    repo.save_status_update(status2);

    let member_updates = repo.get_status_updates_for_member(member_id);
    assert_eq!(member_updates.len(), 2);

    let recent_updates = repo.get_recent_status_updates(10);
    assert_eq!(recent_updates.len(), 2);
}

#[test]
fn test_team_metrics() {
    let mut repo = TeamRepository::new("./data");

    let mut metrics = TeamMetrics::new(1_700_000_000_000_000);
    metrics.active_members = 5;
    metrics.completed_tasks = 20;
    metrics.blockers_count = 1;
    metrics.average_satisfaction_bits = 8.0f32.to_bits();
    metrics.velocity_bits = 80.0f32.to_bits();
    let saved = metrics.clone();

    repo.save_team_metrics(metrics);

    let latest = repo.get_latest_team_metrics();
    assert!(latest.is_some());
    let latest_metrics = latest.unwrap();
    assert_eq!(*latest_metrics, saved);
    assert_eq!(f32::from_bits(latest_metrics.average_satisfaction_bits), 8.0);
    assert_eq!(f32::from_bits(latest_metrics.velocity_bits), 80.0);
}

#[test]
fn test_ai_decisions() {
    let mut repo = TeamRepository::new("./data");

    let mut decision = AIDecision::new(
        "task_prioritization".to_string(),
        "Team has multiple urgent tasks".to_string(),
        "Focus on critical bug fixes first".to_string(),
        0.85f32.to_bits(),
    );

    repo.save_ai_decision(decision.clone());

    decision.set_outcome("Recommendation followed, bugs fixed".to_string());
    repo.save_ai_decision(decision);

    let recent_decisions = repo.get_recent_ai_decisions(5);
    assert_eq!(recent_decisions.len(), 1);
    assert!(recent_decisions[0].outcome.is_some());
}

#[test]
fn save_then_get_returns_equal_member() {
    let mut repo = TeamRepository::new("./data");
    let member = TeamMember::new("Ann".to_string(), "ann@example.com".to_string(), "Lead".to_string())
        .with_slack_id("@ann".to_string());
    let copy = member.clone();
    repo.save_team_member(member);
    assert_eq!(repo.get_team_member(copy.id), Some(&copy));
}

#[test]
fn saving_same_id_twice_keeps_one_entry_with_second_values() {
    let mut repo = TeamRepository::new("./data");
    let member = TeamMember::new("Ann".to_string(), "ann@example.com".to_string(), "Lead".to_string());
    let mut changed = member.clone();
    changed.name = "Ann Smith".to_string();
    changed.role = "Manager".to_string();
    repo.save_team_member(member);
    repo.save_team_member(changed.clone());
    let all = repo.list_team_members();
    assert_eq!(all.len(), 1);
    assert_eq!(*all[0], changed);
    assert_eq!(repo.team_members().len(), 1);
}

#[test]
fn recent_status_updates_newest_first() {
    let mut repo = TeamRepository::new("./data");
    let member_id = fresh_member_id();
    let times = [100i64, 300, 200];
    for (i, t) in times.iter().enumerate() {
        let mut u = StatusUpdate::new(member_id, format!("update {}", i));
        u.timestamp = *t;
        repo.save_status_update(u);
    }
    let all = repo.get_status_updates_for_member(member_id);
    assert_eq!(all.len(), 3);
    let recent = repo.get_recent_status_updates(2);
    let stamps: Vec<i64> = recent.iter().map(|u| u.timestamp).collect();
    assert_eq!(stamps, vec![300, 200]);
    let none = repo.get_recent_status_updates(0);
    assert!(none.is_empty());
}

#[test]
fn status_updates_filtered_by_member_in_order() {
    let mut repo = TeamRepository::new("./data");
    let a = fresh_member_id();
    let b = fresh_member_id();
    repo.save_status_update(StatusUpdate::new(a, "a1".to_string()));
    repo.save_status_update(StatusUpdate::new(b, "b1".to_string()));
    repo.save_status_update(StatusUpdate::new(a, "a2".to_string()));
    let for_a: Vec<&str> = repo
        .get_status_updates_for_member(a)
        .iter()
        .map(|u| u.content.as_str())
        .collect();
    assert_eq!(for_a, vec!["a1", "a2"]);
    assert_eq!(repo.get_status_updates_for_member(fresh_member_id()).len(), 0);
}

#[test]
fn metrics_range_is_inclusive_and_excludes_later() {
    let mut repo = TeamRepository::new("./data");
    for d in [10i64, 20, 30] {
        repo.save_team_metrics(TeamMetrics::new(d));
    }
    let mut dates: Vec<i64> = repo.get_team_metrics_range(10, 20).iter().map(|m| m.date).collect();
    dates.sort();
    assert_eq!(dates, vec![10, 20]);
    assert_eq!(repo.get_team_metrics_range(31, 40).len(), 0);
    assert_eq!(repo.get_team_metrics_range(30, 30).len(), 1);
}

#[test]
fn latest_metrics_picks_max_date_or_none() {
    let mut repo = TeamRepository::new("./data");
    assert!(repo.get_latest_team_metrics().is_none());
    for d in [20i64, 50, 10] {
        repo.save_team_metrics(TeamMetrics::new(d));
    }
    assert_eq!(repo.get_latest_team_metrics().unwrap().date, 50);
}

#[test]
fn latest_metrics_tie_goes_to_earliest_saved() {
    let mut repo = TeamRepository::new("./data");
    let first = TeamMetrics::new(50);
    let first_id = first.id;
    repo.save_team_metrics(TeamMetrics::new(10));
    repo.save_team_metrics(first);
    repo.save_team_metrics(TeamMetrics::new(50));
    assert_eq!(repo.get_latest_team_metrics().unwrap().id, first_id);
}

#[test]
fn removing_unknown_member_changes_nothing() {
    let mut repo = TeamRepository::new("./data");
    let member = TeamMember::new("Bo".to_string(), "bo@example.com".to_string(), "Dev".to_string());
    let copy = member.clone();
    repo.save_team_member(member);
    let stamp = repo.team_members().last_updated();
    assert!(repo.remove_team_member(fresh_member_id()).is_none());
    assert_eq!(repo.list_team_members(), vec![&copy]);
    assert_eq!(repo.team_members().last_updated(), stamp);
}

#[test]
fn removed_member_is_not_listed() {
    let mut repo = TeamRepository::new("./data");
    let a = TeamMember::new("A".to_string(), "a@x".to_string(), "Dev".to_string());
    let b = TeamMember::new("B".to_string(), "b@x".to_string(), "Dev".to_string());
    let a_id = a.id;
    let b_copy = b.clone();
    repo.save_team_member(a);
    repo.save_team_member(b);
    let removed = repo.remove_team_member(a_id).unwrap();
    assert_eq!(removed.id, a_id);
    assert_eq!(repo.list_team_members(), vec![&b_copy]);
    assert!(repo.get_team_member(a_id).is_none());
}

#[test]
fn collections_are_keyed_by_uuid_text() {
    let mut repo = TeamRepository::new("./data");
    let mut member = TeamMember::new("C".to_string(), "c@x".to_string(), "Dev".to_string());
    member.id = 0x67e5_5044_10b1_426f_9247_bb68_0e5f_e0c8;
    repo.save_team_member(member);
    assert_eq!(repo.team_members().items()[0].0, "67e55044-10b1-426f-9247-bb680e5fe0c8");
}

#[test]
fn loading_rekeys_values_and_later_wins() {
    let mut repo = TeamRepository::new("./data");
    let a = TeamMember::new("A".to_string(), "a@x".to_string(), "Dev".to_string());
    let mut a2 = a.clone();
    a2.name = "A2".to_string();
    let b = TeamMember::new("B".to_string(), "b@x".to_string(), "Dev".to_string());
    repo.load_team_members(vec![a.clone(), b.clone(), a2.clone()], 42);
    assert_eq!(repo.list_team_members(), vec![&a2, &b]);
    assert_eq!(repo.team_members().last_updated(), 42);
}

#[test]
fn conversations_by_member() {
    let mut repo = TeamRepository::new("./data");
    let m = fresh_member_id();
    let conv = Conversation {
        id: fresh_member_id(),
        member_id: m,
        messages: Vec::new(),
        created_at: 1,
        updated_at: 1,
    };
    let conv_id = conv.id;
    repo.save_conversation(conv);
    repo.save_conversation(Conversation {
        id: fresh_member_id(),
        member_id: fresh_member_id(),
        messages: Vec::new(),
        created_at: 2,
        updated_at: 2,
    });
    let mine = repo.get_conversations_for_member(m);
    assert_eq!(mine.len(), 1);
    assert_eq!(mine[0].id, conv_id);
    assert!(repo.get_conversation(conv_id).is_some());
}

#[test]
fn recent_decisions_newest_first() {
    let mut repo = TeamRepository::new("./data");
    for (t, kind) in [(5i64, "a"), (9, "b"), (7, "c")] {
        let mut d = AIDecision::new(kind.to_string(), String::new(), String::new(), 0);
        d.created_at = t;
        repo.save_ai_decision(d);
    }
    let kinds: Vec<&str> =
        repo.get_recent_ai_decisions(5).iter().map(|d| d.decision_type.as_str()).collect();
    assert_eq!(kinds, vec!["b", "c", "a"]);
}

#[test]
fn file_path_joins_directory_key_and_extension() {
    let repo = TeamRepository::new("/tmp/team");
    assert_eq!(repo.store().get_file_path("team_members"), "/tmp/team/team_members.json");
    assert_eq!(repo.store().data_dir(), "/tmp/team");
}
