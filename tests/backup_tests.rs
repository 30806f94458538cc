use timeless::backup::{sort_backup_names, BackupManager};

fn names(v: &[&str]) -> Vec<String> {
    v.iter().map(|s| s.to_string()).collect()
}

#[test]
fn manager_paths() {
    let m = BackupManager::new("/srv/data", 3);
    assert_eq!(m.data_dir(), "/srv/data");
    assert_eq!(m.backup_dir(), "/srv/data/backups");
    assert_eq!(m.max_backups(), 3);
    assert_eq!(m.backup_path("backup_20240101_000000"), "/srv/data/backups/backup_20240101_000000");
}

#[test]
fn backup_name_from_time() {
    assert_eq!(BackupManager::backup_name_at(0).unwrap(), "backup_19700101_000000");
    assert_eq!(
        BackupManager::backup_name_at(1_704_164_645_000_000).unwrap(),
        "backup_20240102_030405"
    );
    assert!(BackupManager::backup_name_at(i64::MAX).is_none());
}

#[test]
fn new_backup_name_has_prefix() {
    let m = BackupManager::new("./data", 2);
    let n = m.new_backup_name().unwrap();
    assert!(n.starts_with("backup_"));
    assert_eq!(n.len(), "backup_YYYYMMDD_HHMMSS".len());
}

#[test]
fn names_sorted_lexicographically() {
    let sorted = sort_backup_names(names(&["backup_3", "backup_1", "backup_20", "backup_2"]));
    assert_eq!(sorted, names(&["backup_1", "backup_2", "backup_20", "backup_3"]));
    assert!(sort_backup_names(Vec::new()).is_empty());
}

#[test]
fn retention_keeps_two_most_recent_of_three() {
    let m = BackupManager::new("./data", 2);
    let created: Vec<String> = [1_700_000_000i64, 1_700_000_100, 1_700_000_200]
        .iter()
        .map(|s| BackupManager::backup_name_at(s * 1_000_000).unwrap())
        .collect();
    let on_disk = vec![created[2].clone(), created[0].clone(), created[1].clone()];
    let to_remove = m.backups_to_remove(on_disk.clone());
    assert_eq!(to_remove, vec![created[0].clone()]);
    let kept: Vec<String> =
        sort_backup_names(on_disk).into_iter().filter(|n| !to_remove.contains(n)).collect();
    assert_eq!(kept, vec![created[1].clone(), created[2].clone()]);
}

#[test]
fn nothing_removed_within_limit() {
    let m = BackupManager::new("./data", 2);
    assert!(m.backups_to_remove(names(&["b", "a"])).is_empty());
    let none_kept = BackupManager::new("./data", 0);
    assert_eq!(none_kept.backups_to_remove(names(&["b", "a"])), names(&["a", "b"]));
}
