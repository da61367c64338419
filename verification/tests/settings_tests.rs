use org_x::settings::{MonitoredPath, PathType, SettingsError, TodoKeywords, UserSettings};

#[test]
fn test_todo_keywords_default() {
    let keywords = TodoKeywords::default();
    assert_eq!(keywords.active, vec!["TODO", "IN-PROGRESS", "WAITING"]);
    assert_eq!(keywords.closed, vec!["DONE", "CANCELLED"]);
}

#[test]
fn test_todo_keywords_all_keywords() {
    let keywords = TodoKeywords::default();
    let all = keywords.all_keywords();
    assert_eq!(all.len(), 5);
    assert!(all.contains(&"TODO".to_string()));
    assert!(all.contains(&"DONE".to_string()));
}

#[test]
fn test_todo_keywords_validation() {
    let keywords = TodoKeywords::default();

    // Test active keywords
    assert!(keywords.is_active_keyword("TODO"));
    assert!(keywords.is_active_keyword("IN-PROGRESS"));
    assert!(!keywords.is_active_keyword("DONE"));

    // Test closed keywords
    assert!(keywords.is_closed_keyword("DONE"));
    assert!(keywords.is_closed_keyword("CANCELLED"));
    assert!(!keywords.is_closed_keyword("TODO"));

    // Test valid keywords
    assert!(keywords.is_valid_keyword("TODO"));
    assert!(keywords.is_valid_keyword("DONE"));
    assert!(!keywords.is_valid_keyword("INVALID"));
}

#[test]
fn test_add_active_keyword() {
    let mut keywords = TodoKeywords::default();

    // Add valid keyword
    assert!(keywords.add_active_keyword("NEXT".to_string()).is_ok());
    assert!(keywords.active.contains(&"NEXT".to_string()));

    // Try to add duplicate
    assert!(matches!(
        keywords.add_active_keyword("TODO".to_string()),
        Err(SettingsError::DuplicateKeyword(_))
    ));

    // Try to add empty keyword
    assert!(matches!(
        keywords.add_active_keyword("".to_string()),
        Err(SettingsError::InvalidKeyword(_))
    ));
}

#[test]
fn test_add_closed_keyword() {
    let mut keywords = TodoKeywords::default();

    // Add valid keyword
    assert!(keywords.add_closed_keyword("ARCHIVED".to_string()).is_ok());
    assert!(keywords.closed.contains(&"ARCHIVED".to_string()));

    // Try to add duplicate
    assert!(matches!(
        keywords.add_closed_keyword("DONE".to_string()),
        Err(SettingsError::DuplicateKeyword(_))
    ));
}

#[test]
fn test_remove_keywords() {
    let mut keywords = TodoKeywords::default();
    let initial_active_count = keywords.active.len();
    let initial_closed_count = keywords.closed.len();

    // Remove active keyword
    assert!(keywords.remove_active_keyword(0).is_ok());
    assert_eq!(keywords.active.len(), initial_active_count - 1);

    // Try to remove with invalid index
    assert!(matches!(
        keywords.remove_active_keyword(100),
        Err(SettingsError::InvalidIndex(_, _))
    ));

    // Remove closed keyword
    assert!(keywords.remove_closed_keyword(0).is_ok());
    assert_eq!(keywords.closed.len(), initial_closed_count - 1);
}

#[test]
fn test_edit_keywords() {
    let mut keywords = TodoKeywords::default();

    // Edit active keyword
    assert!(keywords.edit_active_keyword(0, "TASK".to_string()).is_ok());
    assert_eq!(keywords.active[0], "TASK");

    // Try to edit with duplicate name
    assert!(matches!(
        keywords.edit_active_keyword(0, "IN-PROGRESS".to_string()),
        Err(SettingsError::DuplicateKeyword(_))
    ));

    // Edit closed keyword
    assert!(keywords.edit_closed_keyword(0, "FINISHED".to_string()).is_ok());
    assert_eq!(keywords.closed[0], "FINISHED");

    // Try to edit with invalid index
    assert!(matches!(
        keywords.edit_active_keyword(100, "TEST".to_string()),
        Err(SettingsError::InvalidIndex(_, _))
    ));
}

#[test]
fn test_move_keywords() {
    let mut keywords = TodoKeywords::default();
    let first_active = keywords.active[0].clone();
    let second_active = keywords.active[1].clone();

    // Move first active keyword down
    assert!(keywords.move_active_keyword(0, 1).is_ok());
    assert_eq!(keywords.active[0], second_active);
    assert_eq!(keywords.active[1], first_active);

    // Move it back up
    assert!(keywords.move_active_keyword(1, -1).is_ok());
    assert_eq!(keywords.active[0], first_active);
    assert_eq!(keywords.active[1], second_active);

    // Try to move beyond bounds (should succeed but do nothing)
    assert!(keywords.move_active_keyword(0, -1).is_ok()); // Already at the top
    let last_index = keywords.active.len() - 1;
    assert!(keywords.move_active_keyword(last_index, 1).is_ok()); // Already at the bottom

    // Test with invalid index
    assert!(matches!(
        keywords.move_active_keyword(100, 1),
        Err(SettingsError::InvalidIndex(_, _))
    ));
}

#[test]
fn test_reset_to_defaults() {
    let mut keywords = TodoKeywords::default();

    // Modify keywords
    keywords.add_active_keyword("CUSTOM".to_string()).unwrap();
    keywords.add_closed_keyword("CUSTOM_DONE".to_string()).unwrap();

    // Reset to defaults
    keywords.reset_to_defaults();

    let default_keywords = TodoKeywords::default();
    assert_eq!(keywords.active, default_keywords.active);
    assert_eq!(keywords.closed, default_keywords.closed);
}

#[test]
fn test_user_settings_custom_properties_crud() {
    let mut settings = UserSettings::new();

    // Add custom properties
    assert!(settings.add_custom_property("Effort".to_string()).is_ok());
    assert!(settings.add_custom_property("agenda-group".to_string()).is_ok());
    assert_eq!(settings.custom_properties.len(), 2);

    // Prevent duplicate
    assert!(matches!(
        settings.add_custom_property("Effort".to_string()),
        Err(SettingsError::DuplicateKeyword(_))
    ));

    // Edit custom property
    assert!(settings.edit_custom_property(0, "Estimate".to_string()).is_ok());
    assert_eq!(settings.custom_properties[0], "Estimate");

    // Prevent duplicate on edit
    assert!(matches!(
        settings.edit_custom_property(0, "agenda-group".to_string()),
        Err(SettingsError::DuplicateKeyword(_))
    ));

    // Remove custom property
    assert!(settings.remove_custom_property(1).is_ok());
    assert_eq!(settings.custom_properties.len(), 1);

    // Move custom property (should be a no-op with one element)
    assert!(settings.move_custom_property(0, 1).is_ok());

    // Reset custom properties
    settings.reset_custom_properties_to_defaults();
    assert_eq!(settings.custom_properties.len(), 0);
}

#[test]
fn test_user_settings_todo_keywords() {
    let mut settings = UserSettings::new();

    // Check default TODO keywords are included
    assert_eq!(settings.todo_keywords.active.len(), 3);
    assert_eq!(settings.todo_keywords.closed.len(), 2);

    // Update TODO keywords
    let mut new_keywords = TodoKeywords::new();
    new_keywords.add_active_keyword("CUSTOM".to_string()).unwrap();
    settings.update_todo_keywords(new_keywords.clone());

    assert_eq!(settings.get_todo_keywords().active.len(), 4); // 3 defaults + 1 custom

    // Test mutable access
    settings
        .get_todo_keywords_mut()
        .add_closed_keyword("ARCHIVED".to_string())
        .unwrap();
    assert_eq!(settings.get_todo_keywords().closed.len(), 3); // 2 defaults + 1 custom
}

#[test]
fn test_monitored_path_kinds() {
    let file_path = MonitoredPath::file("/test/path/file.org".to_string());
    assert_eq!(file_path.path, "/test/path/file.org");
    assert_eq!(file_path.path_type, PathType::File);
    assert_eq!(file_path.parse_enabled, true);
    assert!(!file_path.is_recursive());

    let dir_path = MonitoredPath::directory("/test/path/dir".to_string());
    assert_eq!(dir_path.path, "/test/path/dir");
    assert_eq!(dir_path.path_type, PathType::Directory);
    assert_eq!(dir_path.parse_enabled, true);
    assert!(dir_path.is_recursive());
}

#[test]
fn test_monitored_path_management() {
    let mut settings = UserSettings::new();

    // Record a path, then reject its duplicate.
    let path = MonitoredPath::file("/notes/a.org".to_string());
    assert!(settings.add_monitored_path(path.clone()).is_ok());
    assert!(matches!(
        settings.add_monitored_path(path),
        Err(SettingsError::DuplicatePath(_))
    ));
    assert_eq!(settings.monitored_paths.len(), 1);

    // Parsing can be toggled per path.
    assert!(settings.should_parse_path("/notes/a.org"));
    assert!(settings.set_path_parse_enabled("/notes/a.org", false).is_ok());
    assert!(!settings.should_parse_path("/notes/a.org"));
    assert!(settings.set_path_parse_enabled("/notes/a.org", true).is_ok());
    assert!(settings.should_parse_path("/notes/a.org"));
    assert!(matches!(
        settings.set_path_parse_enabled("/missing", true),
        Err(SettingsError::PathNotFound(_))
    ));

    // Replacement keeps the position; removal empties the list.
    let replacement = MonitoredPath::directory("/notes".to_string());
    assert!(settings.update_monitored_path("/notes/a.org", replacement).is_ok());
    assert_eq!(settings.monitored_paths[0].path, "/notes");
    assert!(settings.remove_monitored_path("/notes"));
    assert!(!settings.remove_monitored_path("/notes"));
    assert_eq!(settings.monitored_paths.len(), 0);
}

#[test]
fn test_file_coverage_rules() {
    let mut settings = UserSettings::new();
    settings.add_monitored_path(MonitoredPath::directory("/covered".to_string())).unwrap();
    settings.add_monitored_path(MonitoredPath::file("/single/file.org".to_string())).unwrap();

    // A directory entry covers the files beneath it, component-wise.
    assert!(settings.is_file_covered("/covered/a.org"));
    assert!(settings.is_file_covered("/covered/sub/b.org"));
    assert!(!settings.is_file_covered("/coveredish/c.org"));

    // A file entry covers exactly itself.
    assert!(settings.is_file_covered("/single/file.org"));
    assert!(!settings.is_file_covered("/single/other.org"));

    // A disabled path covers nothing.
    settings.set_path_parse_enabled("/covered", false).unwrap();
    assert!(!settings.is_file_covered("/covered/a.org"));

    // get_parse_enabled_paths reflects the toggles.
    let enabled = settings.get_parse_enabled_paths();
    assert_eq!(enabled.len(), 1);
    assert_eq!(enabled[0].path, "/single/file.org");
}

#[test]
fn test_table_columns() {
    let mut settings = UserSettings::new();
    assert_eq!(settings.get_table_columns().len(), 5);

    // Add, then reject the duplicate id.
    let extra = org_x::settings::TableColumnConfig::new("priority".to_string(), true, 5);
    assert!(settings.add_table_column(extra).is_ok());
    let dup = org_x::settings::TableColumnConfig::new("priority".to_string(), false, 6);
    assert!(matches!(
        settings.add_table_column(dup),
        Err(SettingsError::DuplicateKeyword(_))
    ));

    // Visibility by id.
    assert!(settings.set_column_visibility("title", false).is_ok());
    assert!(!settings.get_table_columns()[1].visible);
    assert!(matches!(
        settings.set_column_visibility("missing", true),
        Err(SettingsError::PathNotFound(_))
    ));

    // Removal by index, reset back to the defaults.
    assert!(settings.remove_table_column(5).is_ok());
    assert!(matches!(
        settings.remove_table_column(99),
        Err(SettingsError::InvalidIndex(_, _))
    ));
    settings.reset_table_columns();
    assert_eq!(settings.get_table_columns().len(), 5);
    assert_eq!(settings.get_table_columns()[0].id, "status");
}

#[test]
fn test_available_columns_include_custom_properties() {
    let mut settings = UserSettings::new();
    settings.add_custom_property("Effort".to_string()).unwrap();
    let columns = settings.get_available_columns();
    assert_eq!(columns.len(), 6);
    assert_eq!(columns[5], "property:Effort");
}

#[test]
fn test_default_external_editor_command() {
    let settings = UserSettings::new();
    assert_eq!(
        settings.external_editor_command,
        "emacsclient --no-wait +{line}:{column} {file}"
    );
}

#[test]
fn test_settings_manager_store_name() {
    let manager = org_x::settings::SettingsManager::new();
    assert_eq!(manager.store_path, "settings.json");
}
