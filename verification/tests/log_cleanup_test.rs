use switchboard::config::Config;
use switchboard::log_cleanup::{
    cleanup_plan, cutoff_nanos, is_log_file, CleanupAction, CleanupEvent, CleanupResult,
    EntryState, NANOS_PER_DAY,
};

#[test]
fn test_is_log_file() {
    assert!(is_log_file("app.log"));
    assert!(is_log_file("app.log.2023-01-01"));
    assert!(is_log_file("/tmp/logs/app/test.log"));
    assert!(!is_log_file("app.txt"));
    assert!(!is_log_file("app.log.txt"));
    assert!(!is_log_file("logfile"));
}

#[test]
fn test_is_log_file_edge_cases() {
    assert!(is_log_file("switchboard.log.2024_05_01"));
    assert!(is_log_file("x.log."));
    assert!(!is_log_file("/var/log/"));
    assert!(is_log_file("/var/log/app.log/"));
    assert!(!is_log_file(""));
    assert!(!is_log_file("a.log.1.log.x"));
    assert!(is_log_file("dir.log.2023/app.log"));
}

#[test]
fn test_cleanup_results_merge() {
    let mut result1 = CleanupResult {
        files_removed: 5,
        bytes_removed: 1000,
        failed_files: vec![("/path/to/file1".to_string(), "error1".to_string())],
    };

    let result2 = CleanupResult {
        files_removed: 3,
        bytes_removed: 500,
        failed_files: vec![("/path/to/file2".to_string(), "error2".to_string())],
    };

    result1.merge(result2);

    assert_eq!(result1.files_removed, 8);
    assert_eq!(result1.bytes_removed, 1500);
    assert_eq!(result1.failed_files.len(), 2);
}

#[test]
fn test_merge_keeps_failure_order_and_identity() {
    let mut a = CleanupResult::new();
    let b = CleanupResult {
        files_removed: 2,
        bytes_removed: 7,
        failed_files: vec![
            ("x.log".to_string(), "e1".to_string()),
            ("y.log".to_string(), "e2".to_string()),
        ],
    };
    a.merge(b);
    a.merge(CleanupResult::default());
    assert_eq!(a.files_removed, 2);
    assert_eq!(a.bytes_removed, 7);
    assert_eq!(a.failed_files[0].0, "x.log");
    assert_eq!(a.failed_files[1].1, "e2");
}

#[test]
fn test_cleanup_plan_disabled_and_enabled() {
    let mut config = Config::default();
    assert!(cleanup_plan(&config).is_none());
    config.log_max_age_days = Some(0);
    assert!(cleanup_plan(&config).is_none());
    config.log_max_age_days = Some(7);
    let (days, dirs) = cleanup_plan(&config).expect("cleanup enabled");
    assert_eq!(days, 7);
    assert_eq!(dirs, vec!["./logs/app".to_string(), "./logs/test".to_string()]);
}

#[test]
fn test_cutoff_is_whole_days_back() {
    assert_eq!(NANOS_PER_DAY, 86_400_000_000_000);
    assert_eq!(cutoff_nanos(10 * NANOS_PER_DAY, 3), 7 * NANOS_PER_DAY);
    assert_eq!(cutoff_nanos(0, 1), -NANOS_PER_DAY);
}

#[test]
fn test_cleanup_step_removes_old_log_file() {
    let mut result = CleanupResult::new();
    let cutoff = 1_000;
    let (state, action) = result.step(
        cutoff,
        EntryState::Idle,
        CleanupEvent::Listed { path: "logs/app/old.log".to_string(), is_dir: false },
    );
    match &action {
        CleanupAction::ReadMetadata { path } => assert_eq!(path, "logs/app/old.log"),
        _ => panic!("expected a metadata read"),
    }
    let (state, action) =
        result.step(cutoff, state, CleanupEvent::Inspected { size: 42, modified_nanos: 999 });
    match &action {
        CleanupAction::Remove { path } => assert_eq!(path, "logs/app/old.log"),
        _ => panic!("expected a removal"),
    }
    let (state, action) = result.step(cutoff, state, CleanupEvent::Removed);
    assert!(matches!(state, EntryState::Idle));
    assert!(matches!(action, CleanupAction::Next));
    assert_eq!(result.files_removed, 1);
    assert_eq!(result.bytes_removed, 42);
    assert!(result.failed_files.is_empty());
}

#[test]
fn test_cleanup_step_keeps_recent_and_non_log_files() {
    let mut result = CleanupResult::new();
    let (state, action) = result.step(
        1_000,
        EntryState::Idle,
        CleanupEvent::Listed { path: "logs/app/notes.txt".to_string(), is_dir: false },
    );
    assert!(matches!(state, EntryState::Idle));
    assert!(matches!(action, CleanupAction::Next));

    let (state, action) = result.step(
        1_000,
        EntryState::Idle,
        CleanupEvent::Listed { path: "logs/app/sub.log".to_string(), is_dir: true },
    );
    assert!(matches!(state, EntryState::Idle));
    assert!(matches!(action, CleanupAction::Next));

    let (state, _) = result.step(
        1_000,
        EntryState::Idle,
        CleanupEvent::Listed { path: "logs/app/new.log".to_string(), is_dir: false },
    );
    let (state, action) =
        result.step(1_000, state, CleanupEvent::Inspected { size: 9, modified_nanos: 1_000 });
    assert!(matches!(state, EntryState::Idle));
    assert!(matches!(action, CleanupAction::Next));
    assert_eq!(result.files_removed, 0);
}

#[test]
fn test_cleanup_step_records_failures() {
    let mut result = CleanupResult::new();
    let (state, _) = result.step(
        5,
        EntryState::Idle,
        CleanupEvent::Listed { path: "a.log".to_string(), is_dir: false },
    );
    result.step(5, state, CleanupEvent::MetadataFailed { error: "denied".to_string() });

    let (state, _) = result.step(
        5,
        EntryState::Idle,
        CleanupEvent::Listed { path: "b.log".to_string(), is_dir: false },
    );
    result.step(5, state, CleanupEvent::ModifiedUnknown { error: "unsupported".to_string() });

    let (state, _) = result.step(
        5,
        EntryState::Idle,
        CleanupEvent::Listed { path: "c.log".to_string(), is_dir: false },
    );
    let (state, _) = result.step(5, state, CleanupEvent::Inspected { size: 3, modified_nanos: 1 });
    result.step(5, state, CleanupEvent::RemoveFailed { error: "busy".to_string() });

    assert_eq!(result.files_removed, 0);
    assert_eq!(
        result.failed_files,
        vec![
            ("a.log".to_string(), "Failed to read metadata: denied".to_string()),
            ("b.log".to_string(), "Failed to get modification time: unsupported".to_string()),
            ("c.log".to_string(), "Failed to remove file: busy".to_string()),
        ]
    );
}

/// Runs the cleanup of one directory listing, where each entry is a path,
/// whether it is a directory, its size and its age in days; every removal
/// succeeds. Returns the paths removed.
fn run_listing(
    result: &mut CleanupResult,
    now: i128,
    max_age_days: u32,
    listing: &[(&str, bool, u64, i128)],
) -> Vec<String> {
    let cutoff = cutoff_nanos(now, max_age_days);
    let mut removed = Vec::new();
    for (path, is_dir, size, age_days) in listing {
        let mut state = EntryState::Idle;
        let mut event = CleanupEvent::Listed { path: path.to_string(), is_dir: *is_dir };
        loop {
            let (next, action) = result.step(cutoff, state, event);
            state = next;
            event = match action {
                CleanupAction::Next => break,
                CleanupAction::ReadMetadata { .. } => CleanupEvent::Inspected {
                    size: *size,
                    modified_nanos: now - age_days * NANOS_PER_DAY,
                },
                CleanupAction::Remove { path } => {
                    removed.push(path);
                    CleanupEvent::Removed
                }
            };
        }
    }
    removed
}

#[test]
fn test_log_cleanup_with_max_age() {
    let mut config = Config::default();
    config.log_max_age_days = Some(7);
    let (days, dirs) = cleanup_plan(&config).expect("cleanup enabled");
    assert_eq!(dirs, vec!["./logs/app".to_string(), "./logs/test".to_string()]);

    let now = 1_700_000_000 * 1_000_000_000;
    let mut result = CleanupResult::new();
    let app = run_listing(
        &mut CleanupResult::new(),
        now,
        days,
        &[
            ("./logs/app/recent.log", false, 14, 1),
            ("./logs/app/old.log", false, 11, 10),
            ("./logs/app/rotated.log.2023-01-01", false, 15, 20),
            ("./logs/app/data.txt", false, 14, 30),
            ("./logs/app/archive.log", true, 0, 30),
        ],
    );
    assert_eq!(app, vec!["./logs/app/old.log", "./logs/app/rotated.log.2023-01-01"]);

    let mut app_result = CleanupResult::new();
    run_listing(
        &mut app_result,
        now,
        days,
        &[
            ("./logs/app/recent.log", false, 14, 1),
            ("./logs/app/old.log", false, 11, 10),
            ("./logs/app/rotated.log.2023-01-01", false, 15, 20),
            ("./logs/app/data.txt", false, 14, 30),
        ],
    );
    let mut test_result = CleanupResult::new();
    let test = run_listing(
        &mut test_result,
        now,
        days,
        &[("./logs/test/recent_test.log", false, 15, 2), ("./logs/test/old_test.log", false, 12, 15)],
    );
    assert_eq!(test, vec!["./logs/test/old_test.log"]);
    result.merge(app_result);
    result.merge(test_result);

    assert_eq!(result.files_removed, 3);
    assert_eq!(result.bytes_removed, 11 + 15 + 12);
    assert!(result.failed_files.is_empty());
}

#[test]
fn test_log_cleanup_with_disabled_max_age() {
    let mut config = Config::default();
    config.log_max_age_days = None;
    assert!(cleanup_plan(&config).is_none());
}

#[test]
fn test_log_cleanup_with_zero_max_age() {
    let mut config = Config::default();
    config.log_max_age_days = Some(0);
    assert!(cleanup_plan(&config).is_none());
}

#[test]
fn test_unexpected_cleanup_event_changes_nothing() {
    let mut result = CleanupResult::new();
    let (state, action) = result.step(0, EntryState::Idle, CleanupEvent::Removed);
    assert!(matches!(state, EntryState::Idle));
    assert!(matches!(action, CleanupAction::Next));
    let removing = EntryState::Removing { path: "a.log".to_string(), size: 5 };
    let (state, action) = result.step(
        0,
        removing,
        CleanupEvent::Listed { path: "b.log".to_string(), is_dir: false },
    );
    assert!(matches!(state, EntryState::Idle));
    assert!(matches!(action, CleanupAction::Next));
    assert_eq!(result.files_removed, 0);
    assert!(result.failed_files.is_empty());
}
