use org_x::metadata::{GlobalMetadata, MetadataManager};
use org_x::parser::parse_org_document;

fn tag_count(metadata: &GlobalMetadata, name: &str) -> usize {
    metadata.tags.iter().find(|t| t.name == name).unwrap().count
}

fn category_count(metadata: &GlobalMetadata, name: &str) -> usize {
    metadata.categories.iter().find(|c| c.name == name).unwrap().count
}

#[test]
fn metadata_test_global_metadata() {
    let mut metadata = GlobalMetadata::new();

    // Register tags
    metadata.register_tag("tag1", "doc1", "headline1");
    metadata.register_tag("tag1", "doc1", "headline2");
    metadata.register_tag("tag2", "doc2", "headline3");

    // Register categories
    metadata.register_category("cat1", "doc1", Some("headline1"));
    metadata.register_category("cat2", "doc2", Some("headline3"));
    metadata.register_category("cat3", "doc3", None);

    // Test tag counts
    assert_eq!(metadata.tags.len(), 2);
    assert_eq!(tag_count(&metadata, "tag1"), 2);
    assert_eq!(tag_count(&metadata, "tag2"), 1);

    // Test category counts
    assert_eq!(metadata.categories.len(), 3);
    assert_eq!(category_count(&metadata, "cat1"), 1);
    assert_eq!(category_count(&metadata, "cat3"), 1);

    // Test finding headlines with tag
    let headlines_with_tag1 = metadata.find_headlines_with_tag("tag1");
    assert_eq!(headlines_with_tag1.len(), 2);
    assert!(headlines_with_tag1.contains(&"headline1".to_string()));
    assert!(headlines_with_tag1.contains(&"headline2".to_string()));

    // Test finding headlines with category
    let headlines_with_cat1 = metadata.find_headlines_with_category("cat1");
    assert_eq!(headlines_with_cat1.len(), 1);
    assert!(headlines_with_cat1.contains(&"headline1".to_string()));

    // Test sorting by count
    let tags_by_count = metadata.get_tags_by_count();
    assert_eq!(tags_by_count[0].name, "tag1");
    assert_eq!(tags_by_count[1].name, "tag2");

    let categories_by_count = metadata.get_categories_by_count();
    assert_eq!(categories_by_count.len(), 3);
}

#[test]
fn orgmode_test_global_metadata() {
    let mut metadata = GlobalMetadata::new();

    metadata.register_tag("tag1", "doc1", "headline1");
    metadata.register_tag("tag1", "doc1", "headline2");
    metadata.register_tag("tag2", "doc2", "headline3");

    metadata.register_category("cat1", "doc1", Some("headline1"));
    metadata.register_category("cat2", "doc2", Some("headline3"));
    metadata.register_category("cat3", "doc3", None);

    assert_eq!(metadata.tags.len(), 2);
    assert_eq!(tag_count(&metadata, "tag1"), 2);
    assert_eq!(tag_count(&metadata, "tag2"), 1);

    assert_eq!(metadata.categories.len(), 3);
    assert_eq!(category_count(&metadata, "cat1"), 1);
    assert_eq!(category_count(&metadata, "cat3"), 1);

    let headlines_with_tag1 = metadata.find_headlines_with_tag("tag1");
    assert_eq!(headlines_with_tag1.len(), 2);
    assert!(headlines_with_tag1.contains(&"headline1".to_string()));
    assert!(headlines_with_tag1.contains(&"headline2".to_string()));

    let headlines_with_cat1 = metadata.find_headlines_with_category("cat1");
    assert_eq!(headlines_with_cat1.len(), 1);
    assert!(headlines_with_cat1.contains(&"headline1".to_string()));

    let tags_by_count = metadata.get_tags_by_count();
    assert_eq!(tags_by_count[0].name, "tag1");
    assert_eq!(tags_by_count[1].name, "tag2");

    let categories_by_count = metadata.get_categories_by_count();
    assert_eq!(categories_by_count.len(), 3);
}

#[test]
fn test_register_tag_deduplicates_owners() {
    let mut metadata = GlobalMetadata::new();
    metadata.register_tag("tag1", "doc1", "headline1");
    metadata.register_tag("tag1", "doc1", "headline1");
    let entry = metadata.tags.iter().find(|t| t.name == "tag1").unwrap();
    // The count rises per occurrence, the owner lists stay deduplicated.
    assert_eq!(entry.count, 2);
    assert_eq!(entry.documents, vec!["doc1".to_string()]);
    assert_eq!(entry.headlines, vec!["headline1".to_string()]);
}

#[test]
fn test_manager_registers_document() {
    let content = "#+TITLE: Indexed\n#+CATEGORY: Files\n#+FILETAGS: :common:\n* Top :alpha:\n:PROPERTIES:\n:CATEGORY: Special\n:END:\n** Deep :alpha:beta:\n";
    let doc = parse_org_document(content, Some("/x/indexed.org")).unwrap();

    let mut manager = MetadataManager::new();
    manager.register_document(&doc);

    // The file tag, the headline tags.
    let tags = manager.get_all_tags();
    let alpha = tags.iter().find(|t| t.name == "alpha").unwrap();
    assert_eq!(alpha.count, 2);
    let beta = tags.iter().find(|t| t.name == "beta").unwrap();
    assert_eq!(beta.count, 1);
    let common = tags.iter().find(|t| t.name == "common").unwrap();
    assert_eq!(common.count, 1);
    assert_eq!(common.documents, vec!["/x/indexed.org".to_string()]);

    // The document category and the headline's own CATEGORY property.
    let cats = manager.get_all_categories();
    assert!(cats.iter().any(|c| c.name == "Files"));
    assert!(cats.iter().any(|c| c.name == "Special"));
    let special_headlines = manager.find_headlines_with_category("Special");
    assert_eq!(special_headlines, vec!["1".to_string()]);

    // Both headlines carry the alpha tag.
    let alpha_headlines = manager.find_headlines_with_tag("alpha");
    assert_eq!(alpha_headlines.len(), 2);

    // Unknown names have no owners.
    assert!(manager.find_headlines_with_tag("missing").is_empty());
    assert!(manager.find_headlines_with_category("missing").is_empty());
}
