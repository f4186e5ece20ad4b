use file_tracker::events::FSEvent;
use file_tracker::tracker::advance_state;
use file_tracker::tracker::check_potential_path;
use file_tracker::tracker::CheckResult;
use file_tracker::tracker::FileTracker;
use file_tracker::tracker::FileTrackerState;
use file_tracker::tracker::TagProbes;

fn certain(id: &str, path: &str) -> FileTrackerState {
    FileTrackerState::Certain { id: id.to_string(), path: path.to_string() }
}

#[test]
fn rename_in_place_within_one_tick() {
    let state = certain("u", "/V/a.txt");
    let events = vec![
        FSEvent::FileRenamedOld("/V/a.txt".to_string()),
        FSEvent::FileRenamedNew("/V/b.txt".to_string()),
    ];
    let mut probes = TagProbes::new();
    probes.record("/V/b.txt".to_string(), Some("u".to_string()));
    let r = advance_state(&state, &events, &probes).unwrap();
    match r {
        FileTrackerState::Certain { id, path } => {
            assert_eq!(id, "u");
            assert_eq!(path, "/V/b.txt");
        }
        _ => panic!("expected a certain state"),
    }
}

#[test]
fn parent_rename_first_half_leaves_suffix() {
    let state = certain("u", "/V/d1/x.txt");
    let events = vec![FSEvent::FileRenamedOld("/V/d1".to_string())];
    let probes = TagProbes::new();
    let r = advance_state(&state, &events, &probes).unwrap();
    match r {
        FileTrackerState::Renaming { id, partial_path } => {
            assert_eq!(id, "u");
            assert_eq!(partial_path, "x.txt");
        }
        _ => panic!("expected a renaming state"),
    }
}

#[test]
fn parent_rename_both_halves_in_one_tick() {
    let state = certain("u", "/V/d1/x.txt");
    let events = vec![
        FSEvent::FileRenamedOld("/V/d1".to_string()),
        FSEvent::FileRenamedNew("/V/d2".to_string()),
    ];
    let mut probes = TagProbes::new();
    probes.record("/V/d2/x.txt".to_string(), Some("u".to_string()));
    let r = advance_state(&state, &events, &probes).unwrap();
    match r {
        FileTrackerState::Certain { id, path } => {
            assert_eq!(id, "u");
            assert_eq!(path, "/V/d2/x.txt");
        }
        _ => panic!("expected a certain state"),
    }
}

#[test]
fn move_split_across_ticks() {
    // First tick: only the removal arrives.
    let state = certain("u", "/V/d1/x.txt");
    let events = vec![FSEvent::FileRemoved("/V/d1/x.txt".to_string())];
    let probes = TagProbes::new();
    let mid = advance_state(&state, &events, &probes).unwrap();
    match &mid {
        FileTrackerState::Moving { id, partial_path } => {
            assert_eq!(id, "u");
            assert_eq!(partial_path, "");
        }
        _ => panic!("expected a moving state"),
    }
    // Second tick: the addition arrives and the tag at the new path matches.
    let events2 = vec![FSEvent::FileAdded("/V/d3/x.txt".to_string())];
    let mut probes2 = TagProbes::new();
    probes2.record("/V/d3/x.txt".to_string(), Some("u".to_string()));
    let r = advance_state(&mid, &events2, &probes2).unwrap();
    match r {
        FileTrackerState::Certain { id, path } => {
            assert_eq!(id, "u");
            assert_eq!(path, "/V/d3/x.txt");
        }
        _ => panic!("expected a certain state"),
    }
}

#[test]
fn false_candidate_is_rejected() {
    let state = FileTrackerState::Moving {
        id: "u".to_string(),
        partial_path: "x.txt".to_string(),
    };
    let events = vec![FSEvent::FileAdded("/V/e".to_string())];
    let mut probes = TagProbes::new();
    probes.record("/V/e/x.txt".to_string(), Some("v".to_string()));
    let r = advance_state(&state, &events, &probes).unwrap();
    match r {
        FileTrackerState::Moving { id, partial_path } => {
            assert_eq!(id, "u");
            assert_eq!(partial_path, "x.txt");
        }
        _ => panic!("expected the moving state to persist"),
    }
}

#[test]
fn missing_tag_read_keeps_transient_state() {
    let state = FileTrackerState::Renaming {
        id: "u".to_string(),
        partial_path: "x.txt".to_string(),
    };
    let events = vec![FSEvent::FileRenamedNew("/V/d2".to_string())];
    let mut probes = TagProbes::new();
    probes.record("/V/d2/x.txt".to_string(), None);
    let r = advance_state(&state, &events, &probes).unwrap();
    assert!(matches!(r, FileTrackerState::Renaming { .. }));
}

#[test]
fn unprobed_path_is_reported_and_retried() {
    let state = FileTrackerState::Moving {
        id: "u".to_string(),
        partial_path: "x.txt".to_string(),
    };
    let events = vec![FSEvent::FileAdded("/V/e".to_string())];
    let mut probes = TagProbes::new();
    let needed = advance_state(&state, &events, &probes).unwrap_err();
    assert_eq!(needed, "/V/e/x.txt");
    probes.record(needed, Some("u".to_string()));
    let r = advance_state(&state, &events, &probes).unwrap();
    match r {
        FileTrackerState::Certain { id, path } => {
            assert_eq!(id, "u");
            assert_eq!(path, "/V/e/x.txt");
        }
        _ => panic!("expected a certain state"),
    }
}

#[test]
fn modified_event_changes_nothing() {
    let state = certain("u", "/V/a.txt");
    let events = vec![FSEvent::FileModified("/V/a.txt".to_string())];
    let probes = TagProbes::new();
    let r = advance_state(&state, &events, &probes).unwrap();
    match r {
        FileTrackerState::Certain { id, path } => {
            assert_eq!(id, "u");
            assert_eq!(path, "/V/a.txt");
        }
        _ => panic!("expected the certain state to persist"),
    }
}

#[test]
fn rename_of_unrelated_entry_changes_nothing() {
    let state = certain("u", "/V/a.txt");
    let events = vec![FSEvent::FileRenamedOld("/V/other".to_string())];
    let probes = TagProbes::new();
    let r = advance_state(&state, &events, &probes).unwrap();
    assert!(matches!(r, FileTrackerState::Certain { .. }));
}

#[test]
fn update_state_keeps_the_identifier() {
    let mut tracker = FileTracker { root: "/".to_string(), state: certain("u", "/V/a.txt") };
    let events = vec![
        FSEvent::FileRemoved("/V/a.txt".to_string()),
        FSEvent::FileAdded("/V/b.txt".to_string()),
    ];
    let mut probes = TagProbes::new();
    probes.record("/V/b.txt".to_string(), Some("u".to_string()));
    tracker.update_state(&events, &probes).unwrap();
    match &tracker.state {
        FileTrackerState::Certain { id, path } => {
            assert_eq!(id, "u");
            assert_eq!(path, "/V/b.txt");
        }
        _ => panic!("expected a certain state"),
    }
}

#[test]
fn check_potential_path_reconstructs_and_looks_up() {
    let mut probes = TagProbes::new();
    probes.record("/V/d2/x.txt".to_string(), Some("u".to_string()));
    probes.record("/V/d9".to_string(), None);
    match check_potential_path("/V/d2", "x.txt", &probes) {
        CheckResult::Confirmed { tag, full } => {
            assert_eq!(tag, "u");
            assert_eq!(full, "/V/d2/x.txt");
        }
        _ => panic!("expected a confirmed lookup"),
    }
    match check_potential_path("/V/d9", "", &probes) {
        CheckResult::NoTag { full } => assert_eq!(full, "/V/d9"),
        _ => panic!("expected a lookup that found no tag"),
    }
    match check_potential_path("/V/new", "y.txt", &probes) {
        CheckResult::Unprobed { full } => assert_eq!(full, "/V/new/y.txt"),
        _ => panic!("expected an unprobed lookup"),
    }
}
