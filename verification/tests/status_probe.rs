use libra::status_probe::{
    collapse_untracked_markers, path_under, IoBlockedReason, ProbeBudget, ProbeBudgetKind,
    ProbeLimits, PROBE_MAX_ENUMERATED_ENTRIES, pathspec_probe_roots, DepthRoot, PathspecRoots,
    finish_probe_lists, IoBlockedEvent, skips_name, visit_order, ProbeEntryKind, ProbeWalk};

fn strings(items: &[&str]) -> Vec<String> {
    items.iter().map(|s| s.to_string()).collect()
}

#[test]
fn incomplete_probes_keep_every_marker() {
    let mut rows = strings(&["new.txt", "dir/"]);
    collapse_untracked_markers(&mut rows, &strings(&["dir/a"]), &strings(&["dir/a", "new.txt"]), false);
    assert_eq!(rows, strings(&["new.txt", "dir/"]));
}

#[test]
fn consumed_rows_and_fully_consumed_dirs_collapse() {
    let mut rows = strings(&["new.txt", "dir/", "other/", "keep.txt", "seen/"]);
    collapse_untracked_markers(
        &mut rows,
        &strings(&["dir/a", "dir/b", "seen/x", "seen/y"]),
        &strings(&["dir/a", "dir/b", "new.txt", "seen/x"]),
        true,
    );
    assert_eq!(rows, strings(&["other/", "keep.txt", "seen/"]));
}

#[test]
fn paths_compare_by_component() {
    assert!(path_under("dir/a", "dir/"));
    assert!(path_under("dir//a", "dir"));
    assert!(!path_under("directory/a", "dir"));
}

#[test]
fn budgets_trip_and_record_which() {
    let mut budget = ProbeBudget::new(ProbeLimits { max_enumerated_entries: 2, max_qualified_destinations: 1 });
    assert!(budget.charge_entry());
    assert!(budget.admit_destination());
    assert!(budget.charge_entry());
    assert!(!budget.admit_destination());
    assert_eq!(budget.truncated(), Some(ProbeBudgetKind::Destination));
    assert_eq!(budget.kept(), 1);

    let mut budget = ProbeBudget::new(ProbeLimits { max_enumerated_entries: 1, max_qualified_destinations: 5 });
    assert!(budget.charge_entry());
    assert!(!budget.charge_entry());
    assert_eq!(budget.truncated(), Some(ProbeBudgetKind::Enumeration));
}

#[test]
fn overrides_only_lower_the_budgets() {
    let limits = ProbeLimits::effective(Some("10"), Some("999999"));
    assert_eq!(limits.max_enumerated_entries, 10);
    assert_eq!(limits.max_qualified_destinations, 10_000);
    assert_eq!(ProbeLimits::effective(Some("0"), None).max_enumerated_entries, PROBE_MAX_ENUMERATED_ENTRIES);
}

#[test]
fn permission_errors_are_classified() {
    assert_eq!(IoBlockedReason::from_error(true), IoBlockedReason::PermissionDenied);
    assert_eq!(IoBlockedReason::from_error(false), IoBlockedReason::IoError);
}

fn roots(paths: &[(&str, bool)]) -> PathspecRoots {
    PathspecRoots {
        is_empty: false,
        has_positive: true,
        positive_depth_roots: paths.iter().map(|(p, icase)| DepthRoot { path: p.to_string(), icase: *icase }).collect(),
    }
}

#[test]
fn probe_roots_default_to_the_whole_repository() {
    assert_eq!(pathspec_probe_roots(None), vec![String::new()]);
    let exclude_only = PathspecRoots { is_empty: false, has_positive: false, positive_depth_roots: Vec::new() };
    assert_eq!(pathspec_probe_roots(Some(&exclude_only)), vec![String::new()]);
    assert_eq!(pathspec_probe_roots(Some(&roots(&[("src", false), ("docs", true)]))), vec![String::new()]);
    assert_eq!(pathspec_probe_roots(Some(&roots(&[("src", false), ("", false)]))), vec![String::new()]);
}

#[test]
fn probe_roots_are_sorted_unique_and_drop_nested_roots() {
    let got = pathspec_probe_roots(Some(&roots(&[("b", false), ("a/c", false), ("a", false), ("a/", false)])));
    assert_eq!(got, vec!["a".to_string(), "b".to_string()]);
    let got = pathspec_probe_roots(Some(&roots(&[("a-c", false), ("a/b", false)])));
    assert_eq!(got, vec!["a/b".to_string(), "a-c".to_string()]);
}

#[test]
fn probe_lists_are_path_sorted_and_unique() {
    let blocked = vec![
        IoBlockedEvent { path: "b".to_string(), reason: IoBlockedReason::IoError },
        IoBlockedEvent { path: "a/x".to_string(), reason: IoBlockedReason::PermissionDenied },
        IoBlockedEvent { path: "b/".to_string(), reason: IoBlockedReason::PermissionDenied },
    ];
    let (dests, events) = finish_probe_lists(&strings(&["z", "a/b", "a-c", "a/b"]), &blocked);
    assert_eq!(dests, strings(&["a/b", "a-c", "z"]));
    let got: Vec<(String, IoBlockedReason)> = events.into_iter().map(|e| (e.path, e.reason)).collect();
    assert_eq!(
        got,
        vec![
            ("a/x".to_string(), IoBlockedReason::PermissionDenied),
            ("b".to_string(), IoBlockedReason::IoError),
        ]
    );
}

#[test]
fn the_walk_skips_metadata_directories_by_name() {
    assert!(skips_name(".libra"));
    assert!(skips_name(".git"));
    assert!(!skips_name(".github"));
    assert!(!skips_name("git"));
}

#[test]
fn directory_entries_are_visited_in_path_order() {
    assert_eq!(visit_order(&strings(&["d/b", "d/a.txt", "d/a", "d/B"])), strings(&["d/B", "d/a", "d/a.txt", "d/b"]));
}

#[test]
fn the_walk_goes_depth_first_and_keeps_qualified_files() {
    let mut walk = ProbeWalk::new(ProbeLimits { max_enumerated_entries: 100, max_qualified_destinations: 100 });
    walk.visit_root("gone", ProbeEntryKind::Vanished);
    walk.visit_root("src", ProbeEntryKind::Directory { pruned: false });
    walk.visit_root("top.txt", ProbeEntryKind::FileOrLink { qualifies: true });
    assert_eq!(walk.next_directory().as_deref(), Some("src"));
    for _ in 0..5 {
        assert!(walk.charge_entry());
    }
    walk.visit_entry("src/.git", ".git", ProbeEntryKind::Directory { pruned: false });
    walk.visit_entry("src/a", "a", ProbeEntryKind::Directory { pruned: false });
    walk.visit_entry("src/b", "b", ProbeEntryKind::Directory { pruned: false });
    walk.visit_entry("src/ignored", "ignored", ProbeEntryKind::Directory { pruned: true });
    walk.visit_entry("src/x.rs", "x.rs", ProbeEntryKind::FileOrLink { qualifies: true });
    walk.visit_entry("src/bin.dat", "bin.dat", ProbeEntryKind::FileOrLink { qualifies: false });
    walk.visit_entry("src/locked", "locked", ProbeEntryKind::Blocked(IoBlockedReason::PermissionDenied));
    assert_eq!(walk.next_directory().as_deref(), Some("src/b"));
    assert_eq!(walk.next_directory().as_deref(), Some("src/a"));
    assert_eq!(walk.next_directory(), None);
    let (destinations, blocked, truncated) = walk.finish();
    assert_eq!(destinations, strings(&["src/x.rs", "top.txt"]));
    assert_eq!(blocked.len(), 1);
    assert_eq!(blocked[0].path, "src/locked");
    assert_eq!(truncated, None);
}

#[test]
fn the_walk_stops_at_either_budget() {
    let mut walk = ProbeWalk::new(ProbeLimits { max_enumerated_entries: 1, max_qualified_destinations: 1 });
    walk.visit_root("a.txt", ProbeEntryKind::FileOrLink { qualifies: true });
    assert_eq!(walk.truncated(), None);
    walk.visit_root("b.txt", ProbeEntryKind::FileOrLink { qualifies: true });
    assert_eq!(walk.truncated(), Some(ProbeBudgetKind::Enumeration));

    let mut walk = ProbeWalk::new(ProbeLimits { max_enumerated_entries: 10, max_qualified_destinations: 1 });
    walk.visit_root("d", ProbeEntryKind::Directory { pruned: false });
    assert_eq!(walk.next_directory().as_deref(), Some("d"));
    assert!(walk.charge_entry());
    assert!(walk.charge_entry());
    walk.visit_entry("d/x", "x", ProbeEntryKind::FileOrLink { qualifies: true });
    walk.visit_entry("d/y", "y", ProbeEntryKind::FileOrLink { qualifies: true });
    assert_eq!(walk.truncated(), Some(ProbeBudgetKind::Destination));
    assert_eq!(walk.finish().0, strings(&["d/x"]));
}
