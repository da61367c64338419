use std::collections::hash_map::DefaultHasher;
use std::hash::{Hash, Hasher};

use org_x::timestamp::OrgTimestamp;
use org_x::title::OrgTitle;

fn calculate_hash<T: Hash>(t: &T) -> u64 {
    let mut s = DefaultHasher::new();
    t.hash(&mut s);
    s.finish()
}

#[test]
fn test_title_creation() {
    let title = OrgTitle::new(
        "Test Title".to_string(),
        1, // Default level
        Some('A'),
        vec!["tag1".to_string(), "tag2".to_string()],
        Some("TODO".to_string()),
    );

    assert_eq!(title.raw, "Test Title");
    assert_eq!(title.level, 1);
    assert_eq!(title.priority, Some('A'));
    assert_eq!(title.tags, vec!["tag1".to_string(), "tag2".to_string()]);
    assert_eq!(title.todo_keyword, Some("TODO".to_string()));
}

#[test]
fn test_title_properties() {
    let mut title = OrgTitle::simple("Test Title", 1);

    title.set_property("CATEGORY".to_string(), "Test".to_string());
    title.set_property("DEADLINE".to_string(), "<2023-01-01>".to_string());

    assert_eq!(title.get_property("CATEGORY"), Some("Test"));
    assert_eq!(title.get_property("DEADLINE"), Some("<2023-01-01>"));
    assert_eq!(title.get_property("NONEXISTENT"), None);
}

#[test]
fn test_title_planning() {
    let deadline = OrgTimestamp::active_from_string("2023-01-01").unwrap();
    let scheduled = OrgTimestamp::active_from_string("2023-02-01").unwrap();

    // Test with_deadline
    let title1 = OrgTitle::simple("Test Title", 1).with_deadline(deadline.clone());

    // Test with_scheduled
    let title2 = OrgTitle::simple("Test Title", 1).with_scheduled(scheduled.clone());

    // Verify planning data exists
    assert!(title1.planning.is_some());
    assert!(title2.planning.is_some());

    // Verify deadline exists in title1
    if let Some(planning) = &title1.planning {
        assert!(planning.deadline.is_some());
        assert_eq!(
            planning.deadline.as_ref().unwrap().to_date_string(),
            Some("2023-01-01".to_string())
        );
    }

    // Verify scheduled exists in title2
    if let Some(planning) = &title2.planning {
        assert!(planning.scheduled.is_some());
        assert_eq!(
            planning.scheduled.as_ref().unwrap().to_date_string(),
            Some("2023-02-01".to_string())
        );
    }
}

#[test]
fn test_title_hash() {
    let mut title1 = OrgTitle::simple("Test", 1);
    let mut title2 = OrgTitle::simple("Test", 1);

    // Same title should hash to same value
    assert_eq!(calculate_hash(&title1), calculate_hash(&title2));

    // Changing properties should change hash
    title1.set_property("CATEGORY".to_string(), "Test".to_string());
    assert_ne!(calculate_hash(&title1), calculate_hash(&title2));

    title2.set_property("CATEGORY".to_string(), "Test".to_string());
    assert_eq!(calculate_hash(&title1), calculate_hash(&title2));

    // Changing title content should change hash
    title1.raw = "Changed".to_string();
    assert_ne!(calculate_hash(&title1), calculate_hash(&title2));
}

#[test]
fn test_title_equality() {
    let title1 = OrgTitle::simple("Test", 1);
    let title2 = OrgTitle::simple("Test", 1);
    let title3 = OrgTitle::simple("Different", 1);

    // Test OrgTitle == OrgTitle
    assert_eq!(title1, title2);
    assert_ne!(title1, title3);

    // Test OrgTitle == str
    assert_eq!(title1, "Test");
    assert_ne!(title1, "Different");

    // Test str == OrgTitle
    assert_eq!("Test", title1);
    assert_ne!("Different", title1);

    // Test OrgTitle == String
    let string_test = "Test".to_string();
    assert_eq!(title1, string_test);

    // Test String == OrgTitle
    assert_eq!(string_test, title1);
}

#[test]
fn test_simple_with_default_level() {
    let title = OrgTitle::simple_with_default_level("Plain");
    assert_eq!(title.level, 1);
    assert_eq!(title.raw, "Plain");
    assert!(title.todo_keyword.is_none());
    assert!(title.tags.is_empty());
}

#[test]
fn test_with_closed_keeps_other_planning() {
    let deadline = OrgTimestamp::active_from_string("2023-01-01").unwrap();
    let closed = OrgTimestamp::inactive_from_string("2023-03-01").unwrap();
    let title = OrgTitle::simple("Task", 1).with_deadline(deadline).with_closed(closed);
    let planning = title.planning.as_ref().unwrap();
    assert!(planning.deadline.is_some());
    assert!(planning.closed.is_some());
    assert!(planning.scheduled.is_none());
    assert!(!planning.is_empty());
    assert_eq!(planning.formatted_closed(), Some("[2023-03-01 Wed]".to_string()));
}
