use org_x::document::OrgDocument;
use org_x::props::Properties;
use org_x::todo::TodoConfiguration;

#[test]
fn test_document_creation() {
    let doc = OrgDocument {
        id: "doc1".to_string(),
        title: "Test Document".to_string(),
        content: "Content".to_string(),
        headlines: Vec::new(),
        filetags: vec!["test".to_string(), "doc".to_string()],
        parsed_at: String::new(),
        file_path: "test.org".to_string(),
        properties: Properties::new(),
        category: "Test".to_string(),
        etag: "etag1".to_string(),
        todo_config: Some(TodoConfiguration::default()),
    };

    assert_eq!(doc.id, "doc1");
    assert_eq!(doc.title, "Test Document");
    assert_eq!(doc.filetags, vec!["test".to_string(), "doc".to_string()]);
    assert_eq!(doc.category, "Test");
    assert_eq!(doc.file_path, "test.org");
}

#[test]
fn test_document_clone_keeps_fields() {
    let mut props = Properties::new();
    props.set("AUTHOR".to_string(), "Someone".to_string());
    let doc = OrgDocument {
        id: "doc1".to_string(),
        title: "Test Document".to_string(),
        content: "Content".to_string(),
        headlines: Vec::new(),
        filetags: vec!["test".to_string()],
        parsed_at: String::new(),
        file_path: "test.org".to_string(),
        properties: props,
        category: "Test".to_string(),
        etag: "etag1".to_string(),
        todo_config: None,
    };
    let copy = doc.clone();
    assert_eq!(copy.id, doc.id);
    assert_eq!(copy.title, doc.title);
    assert_eq!(copy.filetags, doc.filetags);
    assert_eq!(copy.properties.get("AUTHOR"), Some("Someone"));
}

#[test]
fn test_properties_insertion_order_and_replacement() {
    let mut props = Properties::new();
    props.set("A".to_string(), "1".to_string());
    props.set("B".to_string(), "2".to_string());
    props.set("A".to_string(), "3".to_string());
    assert_eq!(props.len(), 2);
    assert_eq!(props.get("A"), Some("3"));
    assert_eq!(props.get("B"), Some("2"));
    assert!(props.contains_key("A"));
    assert!(!props.contains_key("C"));
    // Replacement keeps the original position.
    assert_eq!(props.entries[0].key, "A");
    assert_eq!(props.entries[1].key, "B");
}
