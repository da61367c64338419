use org_x::document::OrgDocument;
use org_x::headline::OrgHeadline;
use org_x::parser::parse_org_document;
use org_x::props::Properties;
use org_x::repository::OrgDocumentRepository;
use org_x::title::OrgTitle;

fn make_document(id: &str, title: &str, content: &str, file_path: &str) -> OrgDocument {
    OrgDocument {
        id: id.to_string(),
        title: title.to_string(),
        content: content.to_string(),
        headlines: Vec::new(),
        filetags: Vec::new(),
        parsed_at: String::new(),
        file_path: file_path.to_string(),
        properties: Properties::new(),
        category: "Test".to_string(),
        etag: "etag1".to_string(),
        todo_config: None,
    }
}

#[test]
fn test_repository_basic_operations() {
    let mut repo = OrgDocumentRepository::new();

    // Create a test document
    let doc1 = make_document("doc1", "Test Document 1", "Content 1", "test1.org");
    let doc2 = make_document("doc2", "Test Document 2", "Content 2", "test2.org");

    // Test upsert
    repo.upsert(doc1.clone());
    repo.upsert(doc2.clone());

    // Test get
    let retrieved_doc1 = repo.get("doc1").unwrap();
    assert_eq!(retrieved_doc1.id, "doc1");
    assert_eq!(retrieved_doc1.title, "Test Document 1");

    // Test list
    let all_docs = repo.list();
    assert_eq!(all_docs.len(), 2);

    // Test remove
    let removed_doc = repo.remove("doc1").unwrap();
    assert_eq!(removed_doc.id, "doc1");
    assert_eq!(repo.list().len(), 1);
    assert!(repo.get("doc1").is_none());
}

#[test]
fn test_headline_lookup() {
    let mut repo = OrgDocumentRepository::new();

    // Create a document with headlines
    let title1 = OrgTitle::new("Headline 1".to_string(), 1, None, Vec::new(), None);

    let headline1 = OrgHeadline::new(
        "h1".to_string(),
        "doc1".to_string(),
        title1,
        "Content 1".to_string(),
    );

    let title2 = OrgTitle::new("Headline 2".to_string(), 1, None, Vec::new(), None);

    let headline2 = OrgHeadline::new(
        "h2".to_string(),
        "doc1".to_string(),
        title2,
        "Content 2".to_string(),
    );

    let title3 = OrgTitle::new("Headline 3".to_string(), 2, None, Vec::new(), None);

    let headline3 = OrgHeadline::new(
        "h3".to_string(),
        "doc1".to_string(),
        title3,
        "Content 3".to_string(),
    );

    // Set etags for the headlines
    let mut headline1_copy = headline1.clone();
    headline1_copy.etag = "etag1".to_string();

    let mut headline2_copy = headline2.clone();
    headline2_copy.etag = "etag2".to_string();

    let mut headline3_copy = headline3.clone();
    headline3_copy.etag = "etag3".to_string();

    headline2_copy.children = vec![headline3_copy];

    let mut doc = make_document("doc1", "Test Document", "Content", "test.org");
    doc.headlines = vec![headline1_copy, headline2_copy];
    doc.etag = "etag4".to_string();

    repo.upsert(doc);

    // Test finding headlines
    let doc_for_h1 = repo.get_document_for_headline("h1").unwrap();
    assert_eq!(doc_for_h1.id, "doc1");

    let doc_for_h3 = repo.get_document_for_headline("h3").unwrap();
    assert_eq!(doc_for_h3.id, "doc1");

    // Test finding non-existent headline
    assert!(repo.get_document_for_headline("nonexistent").is_none());
}

#[test]
fn test_document_lookup_helper_methods() {
    let mut repo = OrgDocumentRepository::new();

    // Create test documents with different scenarios
    let doc1 = make_document("doc1", "Test Document 1", "Content 1", "/path/to/test1.org");

    // Document with empty title (should fall back to filename)
    let doc2 = make_document("doc2", "", "Content 2", "/path/to/test2.org");

    // Document with no path at all (should fall back to "Untitled")
    let doc3 = make_document("doc3", "", "Content 3", "");

    repo.upsert(doc1);
    repo.upsert(doc2);
    repo.upsert(doc3);

    // Test get_title_by_id with document that has title
    let title1 = repo.get_title_by_id("doc1").unwrap();
    assert_eq!(title1, "Test Document 1");

    // Test get_title_by_id with document that has empty title (should use filename)
    let title2 = repo.get_title_by_id("doc2").unwrap();
    assert_eq!(title2, "test2.org");

    // Test get_title_by_id with document that has empty path (should use "Untitled")
    let title3 = repo.get_title_by_id("doc3").unwrap();
    assert_eq!(title3, "Untitled");

    // Test get_title_by_id with non-existent document
    assert!(repo.get_title_by_id("nonexistent").is_none());

    // Test get_path_by_id
    let path1 = repo.get_path_by_id("doc1").unwrap();
    assert_eq!(path1, "/path/to/test1.org");

    let path2 = repo.get_path_by_id("doc2").unwrap();
    assert_eq!(path2, "/path/to/test2.org");

    // Test get_path_by_id with non-existent document
    assert!(repo.get_path_by_id("nonexistent").is_none());
}

#[test]
fn test_prune_uncovered_documents() {
    let mut repo = OrgDocumentRepository::new();

    // Create test documents
    let doc1 = make_document("doc1", "Document 1", "Content 1", "/monitored/file1.org");
    let doc2 = make_document("doc2", "Document 2", "Content 2", "/unmonitored/file2.org");
    let doc3 = make_document("doc3", "Document 3", "Content 3", "/monitored/subdir/file3.org");

    // Add documents to repository
    repo.upsert(doc1);
    repo.upsert(doc2);
    repo.upsert(doc3);

    assert_eq!(repo.list().len(), 3);

    // Define a coverage function that only covers files in /monitored
    let is_file_covered = |file_path: &str| file_path.starts_with("/monitored");

    // Prune uncovered documents
    let removed_ids = repo.prune_uncovered_documents(is_file_covered);

    // Should have removed doc2 (in /unmonitored)
    assert_eq!(removed_ids.len(), 1);
    assert!(removed_ids.contains(&"doc2".to_string()));

    // Repository should now have 2 documents
    assert_eq!(repo.list().len(), 2);

    // Check that the correct documents remain
    assert!(repo.get("doc1").is_some());
    assert!(repo.get("doc2").is_none());
    assert!(repo.get("doc3").is_some());
}

#[test]
fn test_prune_uncovered_documents_empty_repository() {
    let mut repo = OrgDocumentRepository::new();

    let is_file_covered = |_file_path: &str| false;

    // Pruning empty repository should return empty list
    let removed_ids = repo.prune_uncovered_documents(is_file_covered);
    assert!(removed_ids.is_empty());
    assert_eq!(repo.list().len(), 0);
}

#[test]
fn test_prune_uncovered_documents_all_covered() {
    let mut repo = OrgDocumentRepository::new();

    let doc1 = make_document("doc1", "Document 1", "Content 1", "/path/file1.org");

    repo.upsert(doc1);

    // All files are covered
    let is_file_covered = |_file_path: &str| true;

    let removed_ids = repo.prune_uncovered_documents(is_file_covered);
    assert!(removed_ids.is_empty());
    assert_eq!(repo.list().len(), 1);
}

#[test]
fn test_prune_second_call_is_noop() {
    // After one prune, a second prune with the same coverage removes nothing.
    let mut repo = OrgDocumentRepository::new();
    repo.upsert(make_document("a", "A", "", "/monitored/x.org"));
    repo.upsert(make_document("b", "B", "", "/other/y.org"));

    let covered = |p: &str| p.starts_with("/monitored");
    let removed = repo.prune_uncovered_documents(covered);
    assert_eq!(removed, vec!["b".to_string()]);

    let removed_again = repo.prune_uncovered_documents(covered);
    assert!(removed_again.is_empty());
    assert_eq!(repo.list().len(), 1);
    assert!(repo.get("a").is_some());
}

#[test]
fn test_issue_16_monitoring_path_changes_not_reflected() {
    // When monitored paths are removed or parsing is disabled, the
    // corresponding documents should be removed from the repository.
    let mut repo = OrgDocumentRepository::new();

    let monitored_doc = make_document(
        "monitored_doc",
        "Monitored Document",
        "Content",
        "/monitored/path/file.org",
    );
    let unmonitored_doc = make_document(
        "unmonitored_doc",
        "Unmonitored Document",
        "Content",
        "/unmonitored/path/file.org",
    );
    let disabled_doc = make_document(
        "disabled_doc",
        "Disabled Document",
        "Content",
        "/disabled/path/file.org",
    );

    // Initially, all documents are in the repository
    repo.upsert(monitored_doc);
    repo.upsert(unmonitored_doc);
    repo.upsert(disabled_doc);
    assert_eq!(repo.list().len(), 3);

    // All paths are monitored with parsing enabled
    let all_covered = |_file_path: &str| true;
    let removed_ids = repo.prune_uncovered_documents(all_covered);
    assert!(removed_ids.is_empty());
    assert_eq!(repo.list().len(), 3);

    // Only the monitored path stays covered
    let only_monitored_covered = |file_path: &str| file_path.starts_with("/monitored");
    let removed_ids = repo.prune_uncovered_documents(only_monitored_covered);
    assert_eq!(removed_ids.len(), 2);
    assert!(removed_ids.contains(&"unmonitored_doc".to_string()));
    assert!(removed_ids.contains(&"disabled_doc".to_string()));
    assert_eq!(repo.list().len(), 1);
    assert!(repo.get("monitored_doc").is_some());
    assert!(repo.get("unmonitored_doc").is_none());
    assert!(repo.get("disabled_doc").is_none());

    // No paths stay covered
    let none_covered = |_file_path: &str| false;
    let removed_ids = repo.prune_uncovered_documents(none_covered);
    assert_eq!(removed_ids.len(), 1);
    assert!(removed_ids.contains(&"monitored_doc".to_string()));
    assert_eq!(repo.list().len(), 0);
}

#[test]
fn test_issue_29_no_duplicate_headlines_when_toggling_monitoring() {
    // Each re-parse of a file carries the same file-derived document id, so
    // upserting replaces the old document instead of accumulating duplicates.
    let mut repo = OrgDocumentRepository::new();
    let test_file_path = "/test/sample.org";

    let create_sample_document = || -> OrgDocument {
        let headline = OrgHeadline {
            id: "1".to_string(), // Position-based ID
            document_id: test_file_path.to_string(),
            title: OrgTitle::new(
                "Sample Headline".to_string(),
                1,
                None,
                vec!["tag1".to_string()],
                Some("TODO".to_string()),
            ),
            content: "Sample content".to_string(),
            children: Vec::new(),
            etag: "test-etag".to_string(),
        };

        OrgDocument {
            id: test_file_path.to_string(), // File path as the stable ID
            title: "Sample Document".to_string(),
            content: "Sample content".to_string(),
            headlines: vec![headline],
            filetags: vec!["test".to_string()],
            parsed_at: String::new(),
            file_path: test_file_path.to_string(),
            properties: Properties::new(),
            category: "Test".to_string(),
            etag: "etag1".to_string(),
            todo_config: None,
        }
    };

    // Parse the file for the first time
    let doc1 = create_sample_document();
    repo.upsert(doc1);
    assert_eq!(repo.list().len(), 1);
    assert_eq!(repo.list()[0].headlines.len(), 1);

    // Toggling parse_enabled off then on re-parses the file
    let doc2 = create_sample_document();
    repo.upsert(doc2);

    // Still only 1 document and 1 headline
    assert_eq!(repo.list().len(), 1, "Should have only 1 document after reparsing");
    assert_eq!(
        repo.list()[0].headlines.len(),
        1,
        "Should have only 1 headline after reparsing"
    );
    assert_eq!(repo.list()[0].id, test_file_path, "Document ID should be file path");
    assert_eq!(repo.list()[0].headlines[0].id, "1", "Headline ID should be position-based");

    // Multiple toggles (parse multiple times)
    for _ in 0..5 {
        let doc = create_sample_document();
        repo.upsert(doc);
    }

    assert_eq!(repo.list().len(), 1, "Should have only 1 document after multiple reparses");
    assert_eq!(
        repo.list()[0].headlines.len(),
        1,
        "Should have only 1 headline after multiple reparses"
    );

    // Verify document retrieval by file path works correctly
    assert!(
        repo.get(test_file_path).is_some(),
        "Should be able to retrieve document by file path"
    );
}

#[test]
fn test_idempotent_reparse_of_unchanged_content() {
    // Parsing the same unchanged content repeatedly and upserting every result
    // leaves exactly one document, because the id derives from the file path.
    let mut repo = OrgDocumentRepository::new();
    let content = "#+TITLE: Stable\n* TODO Keep me :tag:\nBody\n";
    for _ in 0..7 {
        let doc = parse_org_document(content, Some("/notes/stable.org")).unwrap();
        repo.upsert(doc);
    }
    assert_eq!(repo.list().len(), 1);
    let stored = repo.get("/notes/stable.org").unwrap();
    assert_eq!(stored.title, "Stable");
    assert_eq!(stored.headlines.len(), 1);
}
