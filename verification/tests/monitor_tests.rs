use org_x::monitor::{Debouncer, FsEventKind, MonitorCore, is_relevant_file, relevant_event_path};
use org_x::settings::MonitoredPath;
use org_x::update::{OrgUpdateInfo, UpdateTracker};

#[test]
fn test_is_relevant_file() {
    // Test .org file
    assert!(is_relevant_file("test.org"));

    // Test non-org file
    assert!(!is_relevant_file("test.txt"));

    // Test hidden file
    assert!(!is_relevant_file(".hidden.org"));
}

#[test]
fn test_is_relevant_file_uses_file_name_only() {
    assert!(is_relevant_file("/a/b/notes.org"));
    assert!(!is_relevant_file("/a/b/.notes.org"));
    assert!(!is_relevant_file("/a/b.org/readme.txt"));
    assert!(!is_relevant_file("/a/b/NOTES.ORG")); // the extension is case-sensitive
    assert!(!is_relevant_file("/a/b/"));
}

#[test]
fn test_file_monitor_add_path() {
    let mut monitor = MonitorCore::new();

    // Add a path
    let path = MonitoredPath::file("test.org".to_string());
    monitor.add_path(path.clone());
    assert_eq!(monitor.paths.len(), 1);

    // Adding the same path again is accepted and keeps a single entry
    monitor.add_path(path);
    assert_eq!(monitor.paths.len(), 1);
}

#[test]
fn test_monitor_start_and_stop() {
    let mut monitor = MonitorCore::new();
    monitor.add_path(MonitoredPath::file("/w/a.org".to_string()));
    let mut disabled = MonitoredPath::directory("/w/dir".to_string());
    disabled.parse_enabled = false;
    monitor.add_path(disabled);
    monitor.add_path(MonitoredPath::directory("/w/other".to_string()));

    // Starting hands back the parse-enabled paths with their recursive flags.
    let to_register = monitor.start_monitoring();
    assert!(monitor.watching);
    assert_eq!(to_register.len(), 2);
    assert_eq!(to_register[0], ("/w/a.org".to_string(), false));
    assert_eq!(to_register[1], ("/w/other".to_string(), true));

    // A path added while watching asks for immediate registration.
    let register_now = monitor.add_path(MonitoredPath::file("/w/b.org".to_string()));
    assert!(register_now);

    // Stopping is idempotent.
    monitor.stop_monitoring();
    assert!(!monitor.watching);
    monitor.stop_monitoring();
    assert!(!monitor.watching);
    assert_eq!(monitor.paths.len(), 4);
}

#[test]
fn test_relevant_event_path_filters_kinds() {
    let paths = vec!["/w/a.org".to_string(), "/w/b.org".to_string()];
    assert_eq!(
        relevant_event_path(FsEventKind::Modify, &paths),
        Some("/w/a.org".to_string())
    );
    assert_eq!(
        relevant_event_path(FsEventKind::Create, &paths),
        Some("/w/a.org".to_string())
    );
    assert_eq!(
        relevant_event_path(FsEventKind::Remove, &paths),
        Some("/w/a.org".to_string())
    );
    assert_eq!(relevant_event_path(FsEventKind::Other, &paths), None);
    let empty: Vec<String> = Vec::new();
    assert_eq!(relevant_event_path(FsEventKind::Modify, &empty), None);
}

#[test]
fn test_debounce_coalesces_burst_into_one() {
    // Five events for one path inside the debounce window elapse as one timer:
    // one re-parse, not five.
    let mut debouncer = Debouncer::new(300);
    debouncer.record_event("/w/a.org".to_string(), 1000);
    debouncer.record_event("/w/a.org".to_string(), 1050);
    debouncer.record_event("/w/a.org".to_string(), 1100);
    debouncer.record_event("/w/a.org".to_string(), 1150);
    debouncer.record_event("/w/a.org".to_string(), 1200);

    // Before the last timer elapses nothing is due.
    assert!(debouncer.take_due(1400).is_empty());

    // After it elapses the path comes out exactly once.
    let due = debouncer.take_due(1500);
    assert_eq!(due, vec!["/w/a.org".to_string()]);

    // And its timer is gone: nothing fires again.
    assert!(debouncer.take_due(2000).is_empty());
}

#[test]
fn test_debounce_keeps_paths_separate() {
    let mut debouncer = Debouncer::new(300);
    debouncer.record_event("/w/a.org".to_string(), 1000);
    debouncer.record_event("/w/b.org".to_string(), 1200);

    // Only the first is due at 1300.
    let due = debouncer.take_due(1300);
    assert_eq!(due, vec!["/w/a.org".to_string()]);

    // The second follows once its own timer elapses.
    let due2 = debouncer.take_due(1500);
    assert_eq!(due2, vec!["/w/b.org".to_string()]);
}

#[test]
fn test_update_tracker() {
    let mut tracker = UpdateTracker::new(3); // Keep only 3 updates

    // Create some test updates
    let update1 = OrgUpdateInfo {
        document_id: "doc1".to_string(),
        updated_headlines: vec!["h1".to_string()],
        deleted_headlines: Vec::new(),
        new_headlines: Vec::new(),
        timestamp: chrono::Utc::now().to_rfc3339(),
    };

    let update2 = OrgUpdateInfo {
        document_id: "doc2".to_string(),
        updated_headlines: vec!["h2".to_string()],
        deleted_headlines: Vec::new(),
        new_headlines: Vec::new(),
        timestamp: chrono::Utc::now().to_rfc3339(),
    };

    let update3 = OrgUpdateInfo {
        document_id: "doc1".to_string(),
        updated_headlines: vec!["h3".to_string()],
        deleted_headlines: vec!["h4".to_string()],
        new_headlines: Vec::new(),
        timestamp: chrono::Utc::now().to_rfc3339(),
    };

    let update4 = OrgUpdateInfo {
        document_id: "doc3".to_string(),
        updated_headlines: Vec::new(),
        deleted_headlines: Vec::new(),
        new_headlines: vec!["h5".to_string()],
        timestamp: chrono::Utc::now().to_rfc3339(),
    };

    // Add updates
    tracker.add_update(update1);
    tracker.add_update(update2);
    tracker.add_update(update3);

    // Test getting updates for a document
    let doc1_updates = tracker.get_updates_for_document("doc1");
    assert_eq!(doc1_updates.len(), 2);

    let doc2_updates = tracker.get_updates_for_document("doc2");
    assert_eq!(doc2_updates.len(), 1);

    // Test max history limit
    tracker.add_update(update4);

    // The oldest update should have been removed
    assert_eq!(tracker.updates.len(), 3);

    // The first update for doc1 should be gone
    let doc1_updates = tracker.get_updates_for_document("doc1");
    assert_eq!(doc1_updates.len(), 1);
}
