use vencord_installer::backup::{
    apply_backup_limits, is_valid_backup_name, list_backups, mb_to_bytes, new_backup_name,
    sort_backups, validate_backup_names, BackupEntry,
};

fn entry(name: &str, size: u64, modified: i64) -> BackupEntry {
    BackupEntry {
        name: name.to_string(),
        path: format!("/backups/{name}"),
        size_bytes: size,
        modified,
    }
}

fn names(entries: &[BackupEntry]) -> Vec<String> {
    entries.iter().map(|e| e.name.clone()).collect()
}

#[test]
fn count_limit_keeps_the_newest() {
    let backups = vec![
        entry("old", 10, 100),
        entry("newest", 10, 300),
        entry("middle", 10, 200),
    ];
    let plan = apply_backup_limits(backups, Some(2), None);
    assert_eq!(names(&plan.kept), vec!["newest", "middle"]);
    assert_eq!(names(&plan.deleted), vec!["old"]);
    assert!(plan.kept.len() <= 2);
}

#[test]
fn count_limit_with_fewer_backups_deletes_nothing() {
    let backups = vec![entry("a", 1, 1), entry("b", 1, 2)];
    let plan = apply_backup_limits(backups, Some(5), None);
    assert_eq!(plan.kept.len(), 2);
    assert!(plan.deleted.is_empty());
}

#[test]
fn size_limit_prunes_oldest_first() {
    // 3 MiB budget; sizes in bytes. Newest first: c (2 MiB), b (2 MiB), a (1 MiB).
    let mib = 1024 * 1024;
    let backups = vec![
        entry("a", mib, 1),
        entry("b", 2 * mib, 2),
        entry("c", 2 * mib, 3),
    ];
    let plan = apply_backup_limits(backups, None, Some(mb_to_bytes(3)));
    assert_eq!(names(&plan.kept), vec!["c"]);
    assert_eq!(names(&plan.deleted), vec!["a", "b"]);
    let total: u64 = plan.kept.iter().map(|e| e.size_bytes).sum();
    assert!(total <= 3 * mib);
}

#[test]
fn size_limit_may_remove_everything() {
    // A one-byte budget: even the newest alone exceeds it, so nothing
    // remains.
    let backups = vec![entry("huge", 10 * 1024 * 1024, 5)];
    let plan = apply_backup_limits(backups, None, Some(1));
    assert!(plan.kept.is_empty());
    assert_eq!(names(&plan.deleted), vec!["huge"]);
}

#[test]
fn retention_is_idempotent() {
    let mib = 1024 * 1024;
    let backups = vec![
        entry("a", mib, 1),
        entry("b", mib, 2),
        entry("c", mib, 3),
        entry("d", mib, 4),
    ];
    let budget = Some(2 * mib);
    let plan = apply_backup_limits(backups, Some(3), budget);
    let again = apply_backup_limits(clone_entries(&plan.kept), Some(3), budget);
    assert_eq!(names(&again.kept), names(&plan.kept));
    assert!(again.deleted.is_empty());
}

#[test]
fn no_limits_is_a_no_op() {
    let backups = vec![entry("b", 1, 2), entry("a", 1, 1)];
    let plan = apply_backup_limits(backups, None, None);
    // The input comes back untouched, not even sorted.
    assert_eq!(names(&plan.kept), vec!["b", "a"]);
    assert!(plan.deleted.is_empty());
}

#[test]
fn both_limits_count_first_then_size() {
    let mib = 1024 * 1024;
    let backups = vec![
        entry("a", 3 * mib, 1),
        entry("b", 3 * mib, 2),
        entry("c", 3 * mib, 3),
    ];
    // Count keeps c and b; the 4 MiB budget then drops b as well.
    let plan = apply_backup_limits(backups, Some(2), Some(4 * mib));
    assert_eq!(names(&plan.kept), vec!["c"]);
    assert_eq!(names(&plan.deleted), vec!["a", "b"]);
}

#[test]
fn a_huge_size_limit_never_overflows() {
    let backups = vec![entry("a", u64::MAX, 1), entry("b", u64::MAX, 2)];
    let plan = apply_backup_limits(backups, None, Some(u64::MAX));
    // Both entries together exceed even the largest budget, so only
    // the newest stays.
    assert_eq!(names(&plan.kept), vec!["b"]);
    assert_eq!(names(&plan.deleted), vec!["a"]);
}

#[test]
fn megabyte_limits_convert_to_bytes_and_saturate() {
    assert_eq!(mb_to_bytes(3), 3 * 1024 * 1024);
    assert_eq!(mb_to_bytes(0), 0);
    assert_eq!(mb_to_bytes(u64::MAX), u64::MAX);
}

#[test]
fn sorting_is_newest_first_with_name_ties_descending() {
    let backups = vec![
        entry("alpha", 1, 50),
        entry("zeta", 1, 50),
        entry("young", 1, 99),
        entry("beta", 1, 50),
    ];
    let sorted = sort_backups(backups);
    assert_eq!(names(&sorted), vec!["young", "zeta", "beta", "alpha"]);
}

#[test]
fn backup_names_with_separators_or_traversal_are_invalid() {
    assert!(!is_valid_backup_name(""));
    assert!(!is_valid_backup_name("a/b"));
    assert!(!is_valid_backup_name("a\\b"));
    assert!(!is_valid_backup_name(".."));
    assert!(!is_valid_backup_name("x..y"));
    assert!(is_valid_backup_name("2024-01-02_03-04-05"));
    assert!(is_valid_backup_name("plain.name")); // a single dot is fine
}

#[test]
fn batch_validation_fails_before_anything_is_deleted() {
    let batch = vec![
        "fine".to_string(),
        "../evil".to_string(),
        "also-fine".to_string(),
    ];
    let r = validate_backup_names(&batch);
    assert_eq!(r.unwrap_err(), "Invalid backup name: ../evil");
    let ok = validate_backup_names(&vec!["a".to_string(), "b".to_string()]);
    assert!(ok.is_ok());
}

#[test]
fn fresh_backup_names_are_valid_and_timestamp_shaped() {
    let name = new_backup_name();
    assert!(is_valid_backup_name(&name));
    // year-month-day_hour-minute-second at second granularity
    assert!(name.len() >= 19);
    assert_eq!(name.matches('-').count(), 4);
    assert_eq!(name.matches('_').count(), 1);
}

#[test]
fn listing_reports_sorted_names_paths_and_sizes() {
    let backups = vec![entry("older", 7, 10), entry("newer", 9, 20)];
    let infos = list_backups(backups);
    assert_eq!(infos.len(), 2);
    assert_eq!(infos[0].name, "newer");
    assert_eq!(infos[0].size_bytes, 9);
    assert_eq!(infos[1].name, "older");
    assert_eq!(infos[1].path, "/backups/older");
}

fn clone_entries(v: &[BackupEntry]) -> Vec<BackupEntry> {
    v.iter()
        .map(|e| BackupEntry {
            name: e.name.clone(),
            path: e.path.clone(),
            size_bytes: e.size_bytes,
            modified: e.modified,
        })
        .collect()
}
