use org_x::document::OrgDocument;
use org_x::headline::OrgHeadline;
use org_x::props::Properties;
use org_x::title::OrgTitle;
use org_x::todo::TodoConfiguration;

fn empty_document(category: &str) -> OrgDocument {
    OrgDocument {
        id: "doc1".to_string(),
        title: "Test Document".to_string(),
        content: "Content".to_string(),
        headlines: Vec::new(),
        filetags: Vec::new(),
        parsed_at: String::new(),
        file_path: "test.org".to_string(),
        properties: Properties::new(),
        category: category.to_string(),
        etag: "etag1".to_string(),
        todo_config: None,
    }
}

#[test]
fn headline_test_headline_task_note_methods() {
    // Create test headlines with OrgTitle
    let task_title = OrgTitle::new(
        "Task".to_string(),
        1,
        None,
        vec!["tag1".to_string()],
        Some("TODO".to_string()),
    );

    let task = OrgHeadline::new(
        "1".to_string(),
        "doc1".to_string(),
        task_title,
        "Task content".to_string(),
    );

    let note_title = OrgTitle::new("Note".to_string(), 1, None, vec!["tag2".to_string()], None);

    let note = OrgHeadline::new(
        "2".to_string(),
        "doc1".to_string(),
        note_title,
        "Note content".to_string(),
    );

    // Test is_task and is_note methods
    assert!(task.is_task());
    assert!(!task.is_note());

    assert!(!note.is_task());
    assert!(note.is_note());
}

#[test]
fn orgmode_test_headline_task_note_methods() {
    // Create test headlines
    let task = OrgHeadline::new(
        "1".to_string(),
        "doc1".to_string(),
        OrgTitle::new(
            "Task".to_string(),
            1,
            None,
            vec!["tag1".to_string()],
            Some("TODO".to_string()),
        ),
        "Task content".to_string(),
    );

    let note = OrgHeadline::new(
        "2".to_string(),
        "doc1".to_string(),
        OrgTitle::new("Note".to_string(), 1, None, vec!["tag2".to_string()], None),
        "Note content".to_string(),
    );

    // Test is_task and is_note methods
    assert!(task.is_task());
    assert!(!task.is_note());

    assert!(!note.is_task());
    assert!(note.is_note());
}

#[test]
fn headline_test_headline_category_inheritance() {
    // Create test document with category
    let doc = empty_document("DocumentCategory");

    // Create headline with no category property
    let headline1_title = OrgTitle::simple("Headline 1", 1);
    let headline1 = OrgHeadline::new(
        "1".to_string(),
        "doc1".to_string(),
        headline1_title,
        "Content".to_string(),
    );

    // Create headline with category property
    let mut headline2_title = OrgTitle::simple("Headline 2", 1);
    headline2_title.set_property("CATEGORY".to_string(), "HeadlineCategory".to_string());

    let headline2 = OrgHeadline::new(
        "2".to_string(),
        "doc1".to_string(),
        headline2_title,
        "Content".to_string(),
    );

    // Test category inheritance
    assert_eq!(headline1.get_category(&doc), "DocumentCategory");
    assert_eq!(headline2.get_category(&doc), "HeadlineCategory");
}

#[test]
fn orgmode_test_headline_category_inheritance() {
    // Create test document with category
    let doc = empty_document("DocumentCategory");

    // Create headline with no category property
    let headline1 = OrgHeadline::new(
        "1".to_string(),
        "doc1".to_string(),
        OrgTitle::simple("Headline 1", 1),
        "Content".to_string(),
    );

    // Create headline with category property
    let mut title2 = OrgTitle::simple("Headline 2", 1);
    title2.set_property("CATEGORY".to_string(), "HeadlineCategory".to_string());
    let headline2 = OrgHeadline::new(
        "2".to_string(),
        "doc1".to_string(),
        title2,
        "Content".to_string(),
    );

    // Test category inheritance
    assert_eq!(headline1.get_category(&doc), "DocumentCategory");
    assert_eq!(headline2.get_category(&doc), "HeadlineCategory");
}

#[test]
fn test_find_tasks_and_notes() {
    // Create a headline hierarchy with both tasks and notes
    let parent_title = OrgTitle::simple("Parent", 1);
    let mut parent = OrgHeadline::new(
        "1".to_string(),
        "doc1".to_string(),
        parent_title,
        "Parent content".to_string(),
    );

    let child1_title = OrgTitle::new(
        "Child 1".to_string(),
        2,
        None,
        Vec::new(),
        Some("TODO".to_string()),
    );
    let child1 = OrgHeadline::new(
        "2".to_string(),
        "doc1".to_string(),
        child1_title,
        "Child 1 content".to_string(),
    );

    let child2_title = OrgTitle::simple("Child 2", 2);
    let child2 = OrgHeadline::new(
        "3".to_string(),
        "doc1".to_string(),
        child2_title,
        "Child 2 content".to_string(),
    );

    parent.children.push(child1);
    parent.children.push(child2);

    // Test find_tasks
    let tasks = parent.find_tasks();
    assert_eq!(tasks.len(), 1);
    assert_eq!(tasks[0].id, "2");

    // Test find_notes
    let notes = parent.find_notes();
    assert_eq!(notes.len(), 2);
    assert!(notes.iter().any(|h| h.id == "1")); // Parent
    assert!(notes.iter().any(|h| h.id == "3")); // Child 2
}

#[test]
fn test_content_and_structure_changed() {
    // Create headlines for comparison
    let title1 = OrgTitle::simple("Test", 1);
    let mut h1 = OrgHeadline::new(
        "1".to_string(),
        "doc1".to_string(),
        title1,
        "Content".to_string(),
    );

    // Same ID and level, but different content
    let title2 = OrgTitle::simple("Test Modified", 1);
    let h2 = OrgHeadline::new(
        "1".to_string(),
        "doc1".to_string(),
        title2,
        "Modified content".to_string(),
    );

    // Content change should be detected
    assert!(h1.content_changed(&h2));

    // Create child headlines
    let child_title = OrgTitle::simple("Child", 2);
    let child = OrgHeadline::new(
        "2".to_string(),
        "doc1".to_string(),
        child_title,
        "Child content".to_string(),
    );

    // Add child to h1
    h1.children.push(child);

    // Structure change should be detected
    assert!(h1.structure_changed(&h2));
    assert!(!h1.structure_changed(&h1)); // No change when compared to itself
}

#[test]
fn test_get_todo_status_resolves_keyword() {
    let config = TodoConfiguration::default();
    let task = OrgHeadline::new(
        "1".to_string(),
        "doc1".to_string(),
        OrgTitle::new("Task".to_string(), 1, None, Vec::new(), Some("WAITING".to_string())),
        String::new(),
    );
    let status = task.get_todo_status(&config).unwrap();
    assert_eq!(status.keyword, "WAITING");
    assert!(status.is_active());

    let note = OrgHeadline::new(
        "2".to_string(),
        "doc1".to_string(),
        OrgTitle::simple("Note", 1),
        String::new(),
    );
    assert!(note.get_todo_status(&config).is_none());

    let unknown = OrgHeadline::new(
        "3".to_string(),
        "doc1".to_string(),
        OrgTitle::new("Odd".to_string(), 1, None, Vec::new(), Some("NEXT".to_string())),
        String::new(),
    );
    assert!(unknown.get_todo_status(&config).is_none());
}

#[test]
fn test_due_and_scheduled_dates_come_from_properties() {
    let mut title = OrgTitle::simple("Task", 1);
    title.set_property("DEADLINE".to_string(), "<2025-04-15 Tue>".to_string());
    title.set_property("SCHEDULED".to_string(), "<2025-04-01 Tue>".to_string());
    let h = OrgHeadline::new("1".to_string(), "doc1".to_string(), title, String::new());
    assert_eq!(h.due_date(), Some("<2025-04-15 Tue>"));
    assert_eq!(h.scheduled_date(), Some("<2025-04-01 Tue>"));
    assert_eq!(h.get_property("MISSING"), None);
}

#[test]
fn test_parent_navigation() {
    // Create a document with a headline hierarchy
    let mut doc = empty_document("Test");

    // Create parent headline
    let parent_title = OrgTitle::simple("Parent", 1);
    let mut parent = OrgHeadline::new(
        "1".to_string(),
        "doc1".to_string(),
        parent_title,
        "Parent content".to_string(),
    );

    // Create child headlines
    let child1_title = OrgTitle::simple("Child 1", 2);
    let child1 = OrgHeadline::new(
        "2".to_string(),
        "doc1".to_string(),
        child1_title,
        "Child 1 content".to_string(),
    );

    let child2_title = OrgTitle::simple("Child 2", 2);
    let mut child2 = OrgHeadline::new(
        "3".to_string(),
        "doc1".to_string(),
        child2_title,
        "Child 2 content".to_string(),
    );

    // Create grandchild headline
    let grandchild_title = OrgTitle::simple("Grandchild", 3);
    let grandchild = OrgHeadline::new(
        "4".to_string(),
        "doc1".to_string(),
        grandchild_title,
        "Grandchild content".to_string(),
    );

    // Build hierarchy
    child2.children.push(grandchild);
    parent.children.push(child1);
    parent.children.push(child2);
    doc.headlines.push(parent);

    // Test parent navigation
    assert!(doc.headlines[0].parent(&doc).is_none()); // Top-level has no parent

    let child1_ref = &doc.headlines[0].children[0];
    let parent_ref = child1_ref.parent(&doc);
    assert!(parent_ref.is_some());
    assert_eq!(parent_ref.unwrap().id, "1");

    let grandchild_ref = &doc.headlines[0].children[1].children[0];
    let child2_ref = grandchild_ref.parent(&doc);
    assert!(child2_ref.is_some());
    assert_eq!(child2_ref.unwrap().id, "3");
}

#[test]
fn test_sibling_navigation() {
    // Create a document with multiple headlines
    let mut doc = empty_document("Test");

    // Create top-level headlines
    let h1_title = OrgTitle::simple("Headline 1", 1);
    let h1 = OrgHeadline::new(
        "1".to_string(),
        "doc1".to_string(),
        h1_title,
        "Content 1".to_string(),
    );

    let h2_title = OrgTitle::simple("Headline 2", 1);
    let mut h2 = OrgHeadline::new(
        "2".to_string(),
        "doc1".to_string(),
        h2_title,
        "Content 2".to_string(),
    );

    let h3_title = OrgTitle::simple("Headline 3", 1);
    let h3 = OrgHeadline::new(
        "3".to_string(),
        "doc1".to_string(),
        h3_title,
        "Content 3".to_string(),
    );

    // Create children for the second headline
    let h2_1_title = OrgTitle::simple("Headline 2.1", 2);
    let h2_1 = OrgHeadline::new(
        "4".to_string(),
        "doc1".to_string(),
        h2_1_title,
        "Content 2.1".to_string(),
    );

    let h2_2_title = OrgTitle::simple("Headline 2.2", 2);
    let h2_2 = OrgHeadline::new(
        "5".to_string(),
        "doc1".to_string(),
        h2_2_title,
        "Content 2.2".to_string(),
    );

    // Build hierarchy
    h2.children.push(h2_1);
    h2.children.push(h2_2);
    doc.headlines.push(h1);
    doc.headlines.push(h2);
    doc.headlines.push(h3);

    // Test previous/next at top level
    assert!(doc.headlines[0].previous(&doc).is_none()); // First has no previous

    let h2_next = doc.headlines[1].next(&doc);
    assert!(h2_next.is_some());
    assert_eq!(h2_next.unwrap().id, "3");

    let h2_prev = doc.headlines[1].previous(&doc);
    assert!(h2_prev.is_some());
    assert_eq!(h2_prev.unwrap().id, "1");

    assert!(doc.headlines[2].next(&doc).is_none()); // Last has no next

    // Test previous/next at child level
    let h2_2_ref = &doc.headlines[1].children[1];
    let h2_1_ref = &doc.headlines[1].children[0];

    assert!(h2_1_ref.previous(&doc).is_none()); // First child has no previous

    let h2_1_next = h2_1_ref.next(&doc);
    assert!(h2_1_next.is_some());
    assert_eq!(h2_1_next.unwrap().id, "5");

    let h2_2_prev = h2_2_ref.previous(&doc);
    assert!(h2_2_prev.is_some());
    assert_eq!(h2_2_prev.unwrap().id, "4");

    assert!(h2_2_ref.next(&doc).is_none()); // Last child has no next
}
