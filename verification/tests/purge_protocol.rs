use blackhole::platform::{should_skip_purge_file, Platform};
use blackhole::purge::{
    blackhole_dir_name, collect_moved, purge_decision, purge_plan, staging_name, PurgeDecision,
};

fn strings(items: &[&str]) -> Vec<String> {
    items.iter().map(|s| s.to_string()).collect()
}

#[test]
fn skip_files_per_platform() {
    assert!(should_skip_purge_file(
        Platform::Windows,
        &"desktop.ini".to_string()
    ));
    assert!(!should_skip_purge_file(
        Platform::Windows,
        &".DS_Store".to_string()
    ));
    assert!(should_skip_purge_file(
        Platform::MacOS,
        &".DS_Store".to_string()
    ));
    assert!(should_skip_purge_file(
        Platform::MacOS,
        &"Icon\r".to_string()
    ));
    assert!(!should_skip_purge_file(
        Platform::MacOS,
        &"desktop.ini".to_string()
    ));
    assert!(!should_skip_purge_file(
        Platform::Other,
        &"desktop.ini".to_string()
    ));
    assert!(!should_skip_purge_file(Platform::Other, &"a.txt".to_string()));
}

#[test]
fn reserved_names() {
    assert_eq!(blackhole_dir_name(), "BLACKHOLE");
    assert_eq!(
        staging_name(&"123e4567".to_string()),
        "BLACKHOLE_PURGE_123e4567"
    );
}

#[test]
fn plan_keeps_user_entries_in_order() {
    let staging = "BLACKHOLE_PURGE_x".to_string();
    let entries = strings(&["b.txt", "desktop.ini", "a.txt", "BLACKHOLE_PURGE_x", "c"]);
    let plan = purge_plan(&entries, &staging, Platform::Windows);
    assert_eq!(plan, strings(&["b.txt", "a.txt", "c"]));
}

#[test]
fn plan_of_only_sidecars_is_empty() {
    let staging = "BLACKHOLE_PURGE_x".to_string();
    let entries = strings(&["desktop.ini", "BLACKHOLE_PURGE_x"]);
    let plan = purge_plan(&entries, &staging, Platform::Windows);
    assert!(plan.is_empty());
    let decision = purge_decision(&plan);
    assert_eq!(decision, PurgeDecision::AbortEmpty);
}

#[test]
fn plan_excludes_sidecars_however_many() {
    let staging = "BLACKHOLE_PURGE_x".to_string();
    let entries = strings(&[
        ".DS_Store", "a", ".DS_Store", "Icon\r", "b", ".DS_Store", "Icon\r",
    ]);
    let plan = purge_plan(&entries, &staging, Platform::MacOS);
    assert_eq!(plan, strings(&["a", "b"]));
}

#[test]
fn full_batch_is_committed_whole() {
    let staging = "BLACKHOLE_PURGE_x".to_string();
    let entries = strings(&["a", "b", "c"]);
    let plan = purge_plan(&entries, &staging, Platform::Other);
    assert_eq!(plan, strings(&["a", "b", "c"]));
    let moved = collect_moved(&plan, &vec![true, true, true]);
    assert_eq!(moved, strings(&["a", "b", "c"]));
    assert_eq!(purge_decision(&moved), PurgeDecision::CommitBatch);
}

#[test]
fn one_locked_entry_is_left_behind() {
    let staging = "BLACKHOLE_PURGE_x".to_string();
    let entries = strings(&["a", "locked", "c"]);
    let plan = purge_plan(&entries, &staging, Platform::Other);
    let moved = collect_moved(&plan, &vec![true, false, true]);
    assert_eq!(moved, strings(&["a", "c"]));
    // The batch still commits: the purge succeeds for everything else.
    assert_eq!(purge_decision(&moved), PurgeDecision::CommitBatch);
}

#[test]
fn nothing_moved_aborts_the_batch() {
    let plan = strings(&["a", "b"]);
    let moved = collect_moved(&plan, &vec![false, false]);
    assert!(moved.is_empty());
    assert_eq!(purge_decision(&moved), PurgeDecision::AbortEmpty);
}
