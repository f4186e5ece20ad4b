use file_tracker::events::FSEvent;
use file_tracker::registry::Registry;
use file_tracker::tracker::FileTrackerState;
use file_tracker::tracker::TagProbes;

#[test]
fn register_then_query_yields_certain() {
    let mut reg = Registry::new();
    assert!(!reg.monitor_is_live("/"));
    reg.register_file("/V/a.txt", "u".to_string());
    match reg.get_tracker_state("u") {
        Some(FileTrackerState::Certain { id, path }) => {
            assert_eq!(id, "u");
            assert_eq!(path, "/V/a.txt");
        }
        _ => panic!("expected a certain state"),
    }
}

#[test]
fn query_of_unknown_id_yields_none() {
    let reg = Registry::new();
    assert!(reg.get_tracker_state("u").is_none());
}

#[test]
fn unregister_then_query_yields_none() {
    let mut reg = Registry::new();
    reg.register_file("/V/a.txt", "u".to_string());
    reg.unregister_file("u");
    assert!(reg.get_tracker_state("u").is_none());
}

#[test]
fn one_monitor_per_root() {
    let mut reg = Registry::new();
    reg.register_file("/V/a.txt", "u".to_string());
    reg.register_file("/V/b.txt", "v".to_string());
    assert_eq!(reg.monitors.len(), 1);
    assert_eq!(reg.monitors[0].root, "/");
    assert_eq!(reg.trackers.len(), 2);
}

#[test]
fn unregister_reports_the_dead_root_once() {
    let mut reg = Registry::new();
    reg.register_file("/V/a.txt", "u".to_string());
    reg.register_file("/V/b.txt", "v".to_string());
    // The first unregistration leaves the monitor alive for the other file.
    assert_eq!(reg.unregister_file("u"), None);
    assert!(reg.monitor_is_live("/"));
    // The second one kills it: the host must shut the watcher down.
    assert_eq!(reg.unregister_file("v"), Some("/".to_string()));
    assert!(!reg.monitor_is_live("/"));
}

#[test]
fn tick_prunes_dead_monitors_and_fresh_registration_reboots() {
    let mut reg = Registry::new();
    reg.register_file("/V/a.txt", "u".to_string());
    reg.register_file("/V/b.txt", "v".to_string());
    reg.unregister_file("u");
    reg.unregister_file("v");
    // The dead entry lingers until the next pass...
    assert_eq!(reg.monitors.len(), 1);
    let batches: Vec<(String, Vec<FSEvent>)> = Vec::new();
    let probes = TagProbes::new();
    reg.tick(&batches, &probes).unwrap();
    // ...which purges it.
    assert_eq!(reg.monitors.len(), 0);
    assert!(reg.live_roots().is_empty());
    // A later registration finds no live monitor and must boot a fresh watcher.
    assert!(!reg.monitor_is_live("/"));
    reg.register_file("/V/z.txt", "w".to_string());
    assert!(reg.monitor_is_live("/"));
    assert_eq!(reg.monitors.len(), 1);
}

#[test]
fn tick_rewrites_relative_paths_and_advances_trackers() {
    let mut reg = Registry::new();
    reg.register_file("/V/a.txt", "u".to_string());
    // The watcher reports volume-relative paths; the monitor prepends "/".
    let batches = vec![(
        "/".to_string(),
        vec![
            FSEvent::FileRenamedOld("V/a.txt".to_string()),
            FSEvent::FileRenamedNew("V/b.txt".to_string()),
        ],
    )];
    let mut probes = TagProbes::new();
    probes.record("/V/b.txt".to_string(), Some("u".to_string()));
    reg.tick(&batches, &probes).unwrap();
    match reg.get_tracker_state("u") {
        Some(FileTrackerState::Certain { id, path }) => {
            assert_eq!(id, "u");
            assert_eq!(path, "/V/b.txt");
        }
        _ => panic!("expected a certain state"),
    }
}

#[test]
fn tick_reports_missing_probe_and_leaves_registry_intact() {
    let mut reg = Registry::new();
    reg.register_file("/V/a.txt", "u".to_string());
    let batches = vec![(
        "/".to_string(),
        vec![
            FSEvent::FileRemoved("V/a.txt".to_string()),
            FSEvent::FileAdded("V/b.txt".to_string()),
        ],
    )];
    let mut probes = TagProbes::new();
    let needed = reg.tick(&batches, &probes).unwrap_err();
    assert_eq!(needed, "/V/b.txt");
    // The pass did not commit anything.
    match reg.get_tracker_state("u") {
        Some(FileTrackerState::Certain { path, .. }) => assert_eq!(path, "/V/a.txt"),
        _ => panic!("expected the certain state to persist"),
    }
    // With the probe recorded, the same pass goes through.
    probes.record(needed, Some("u".to_string()));
    reg.tick(&batches, &probes).unwrap();
    match reg.get_tracker_state("u") {
        Some(FileTrackerState::Certain { path, .. }) => assert_eq!(path, "/V/b.txt"),
        _ => panic!("expected a certain state"),
    }
}

#[test]
fn tick_leaves_event_buffers_empty() {
    let mut reg = Registry::new();
    reg.register_file("/V/a.txt", "u".to_string());
    let batches = vec![(
        "/".to_string(),
        vec![FSEvent::FileModified("V/a.txt".to_string())],
    )];
    let probes = TagProbes::new();
    reg.tick(&batches, &probes).unwrap();
    for m in reg.monitors.iter() {
        assert!(m.events.is_empty());
    }
}

#[test]
fn tick_without_batch_for_a_root_changes_nothing() {
    let mut reg = Registry::new();
    reg.register_file("/V/a.txt", "u".to_string());
    let batches: Vec<(String, Vec<FSEvent>)> = Vec::new();
    let probes = TagProbes::new();
    reg.tick(&batches, &probes).unwrap();
    match reg.get_tracker_state("u") {
        Some(FileTrackerState::Certain { path, .. }) => assert_eq!(path, "/V/a.txt"),
        _ => panic!("expected the certain state to persist"),
    }
}

#[test]
fn trackers_on_different_volumes_get_their_own_monitors() {
    let mut reg = Registry::new();
    reg.register_file("C:\\a.txt", "u".to_string());
    reg.register_file("D:\\b.txt", "v".to_string());
    assert_eq!(reg.monitors.len(), 2);
    let roots = reg.live_roots();
    assert!(roots.contains(&"C:\\".to_string()));
    assert!(roots.contains(&"D:\\".to_string()));
    // Events of one volume do not touch the other volume's tracker.
    let batches = vec![(
        "C:\\".to_string(),
        vec![
            FSEvent::FileRenamedOld("a.txt".to_string()),
            FSEvent::FileRenamedNew("c.txt".to_string()),
        ],
    )];
    let mut probes = TagProbes::new();
    probes.record("C:\\c.txt".to_string(), Some("u".to_string()));
    reg.tick(&batches, &probes).unwrap();
    match reg.get_tracker_state("u") {
        Some(FileTrackerState::Certain { path, .. }) => assert_eq!(path, "C:\\c.txt"),
        _ => panic!("expected a certain state"),
    }
    match reg.get_tracker_state("v") {
        Some(FileTrackerState::Certain { path, .. }) => assert_eq!(path, "D:\\b.txt"),
        _ => panic!("expected the other tracker untouched"),
    }
}

#[test]
fn reregistering_an_identifier_replaces_its_tracker() {
    let mut reg = Registry::new();
    reg.register_file("/V/a.txt", "u".to_string());
    reg.register_file("/V/b.txt", "u".to_string());
    assert_eq!(reg.trackers.len(), 1);
    match reg.get_tracker_state("u") {
        Some(FileTrackerState::Certain { path, .. }) => assert_eq!(path, "/V/b.txt"),
        _ => panic!("expected a certain state"),
    }
}
