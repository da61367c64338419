use org_x::todo::{StateType, TodoConfiguration, TodoStatus};

#[test]
fn todo_test_todo_status() {
    // Test the TodoStatus implementation
    let todo = TodoStatus::todo();
    assert_eq!(todo.keyword, "TODO");
    assert!(todo.is_active());
    assert!(!todo.is_closed());

    let done = TodoStatus::done();
    assert_eq!(done.keyword, "DONE");
    assert!(!done.is_active());
    assert!(done.is_closed());
}

#[test]
fn orgmode_test_todo_status() {
    // Test the TodoStatus implementation
    let todo = TodoStatus::todo();
    assert_eq!(todo.keyword, "TODO");
    assert!(todo.is_active());
    assert!(!todo.is_closed());

    let done = TodoStatus::done();
    assert_eq!(done.keyword, "DONE");
    assert!(!done.is_active());
    assert!(done.is_closed());

    // Test TodoConfiguration
    let config = TodoConfiguration::default();
    assert_eq!(config.default_sequence, "default");
    assert_eq!(config.sequences.len(), 1);

    // Test finding status
    let found_todo = config.find_status("TODO").unwrap();
    assert_eq!(found_todo.keyword, "TODO");
    assert_eq!(found_todo.order, 0);

    let found_done = config.find_status("DONE").unwrap();
    assert_eq!(found_done.keyword, "DONE");
    assert_eq!(found_done.order, 100);

    // Test non-existent status
    assert!(config.find_status("NONEXISTENT").is_none());
}

#[test]
fn test_todo_configuration() {
    // Test TodoConfiguration
    let config = TodoConfiguration::default();
    assert_eq!(config.default_sequence, "default");
    assert_eq!(config.sequences.len(), 1);

    // Test finding status
    let found_todo = config.find_status("TODO").unwrap();
    assert_eq!(found_todo.keyword, "TODO");
    assert_eq!(found_todo.order, 0);

    let found_done = config.find_status("DONE").unwrap();
    assert_eq!(found_done.keyword, "DONE");
    assert_eq!(found_done.order, 100);

    // Test non-existent status
    assert!(config.find_status("NONEXISTENT").is_none());
}

#[test]
fn test_todo_sequence_order() {
    let config = TodoConfiguration::default();
    let sequence = &config.sequences[0];

    // Check that statuses are in the expected order
    let statuses = &sequence.statuses;
    assert!(statuses[0].order < statuses[1].order);
    assert!(statuses[1].order < statuses[2].order);
    assert!(statuses[2].order < statuses[3].order);
    assert!(statuses[3].order < statuses[4].order);

    // Check that active statuses come before closed ones
    for (i, status) in statuses.iter().enumerate() {
        if status.is_active() {
            for j in i + 1..statuses.len() {
                if statuses[j].is_closed() {
                    // This is good - active statuses should come before closed ones
                }
            }
        }
    }
}

#[test]
fn test_from_org_config_parses_declarations() {
    // The declared keywords stand in the configuration, open before the pipe,
    // completed after it, shortcut suffixes stripped.
    let config = TodoConfiguration::from_org_config(&vec!["CUSTOM | DONEX".to_string()]);
    assert_eq!(config.sequences.len(), 1);
    let statuses = &config.sequences[0].statuses;
    assert_eq!(statuses.len(), 2);
    assert_eq!(statuses[0].keyword, "CUSTOM");
    assert!(statuses[0].is_active());
    assert_eq!(statuses[0].order, 0);
    assert_eq!(statuses[0].color, Some("#ff0000".to_string()));
    assert_eq!(statuses[1].keyword, "DONEX");
    assert!(statuses[1].is_closed());
    assert_eq!(statuses[1].order, 1);
    assert_eq!(statuses[1].color, Some("#00ff00".to_string()));

    let custom = config.find_status("CUSTOM").unwrap();
    assert!(custom.is_active());
    assert!(config.find_status("TODO").is_none());
}

#[test]
fn test_from_org_config_shortcuts_pipes_and_lines() {
    // Shortcut suffixes are stripped; each declaration line opens a sequence;
    // a line without a pipe declares open keywords only.
    let lines = vec![
        "TODO(t) NEXT(n) | DONE(d)".to_string(),
        "ONLYACTIVE".to_string(),
    ];
    let config = TodoConfiguration::from_org_config(&lines);
    assert_eq!(config.sequences.len(), 2);

    let first = &config.sequences[0].statuses;
    assert_eq!(first.len(), 3);
    assert_eq!(first[0].keyword, "TODO");
    assert_eq!(first[1].keyword, "NEXT");
    assert!(first[1].is_active());
    assert_eq!(first[2].keyword, "DONE");
    assert!(first[2].is_closed());

    let second = &config.sequences[1].statuses;
    assert_eq!(second.len(), 1);
    assert_eq!(second[0].keyword, "ONLYACTIVE");
    assert!(second[0].is_active());

    // Without declarations the default configuration stands.
    let empty: Vec<String> = Vec::new();
    let fallback = TodoConfiguration::from_org_config(&empty);
    assert_eq!(fallback.sequences.len(), 1);
    assert_eq!(fallback.sequences[0].statuses[0].keyword, "TODO");
    assert_eq!(fallback.sequences[0].statuses.len(), 5);
}

#[test]
fn test_find_status_first_match_across_sequences() {
    // find_status returns the first status across all sequences matching a keyword
    let config = TodoConfiguration::default();
    let first = config.find_status("IN-PROGRESS").unwrap();
    assert_eq!(first.keyword, "IN-PROGRESS");
    assert!(first.is_active());
    let StateType::Active = first.state_type else {
        panic!("expected an active state");
    };
}
