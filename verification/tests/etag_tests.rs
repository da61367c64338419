use org_x::etag::{generate_document_etag, generate_headline_etag};
use org_x::headline::OrgHeadline;
use org_x::hierarchy::build_headline_hierarchy;
use org_x::title::OrgTitle;

#[test]
fn test_document_etag_generation() {
    let content1 = "Test content";
    let content2 = "Test content";
    let content3 = "Different content";

    // Same content should generate same etag
    assert_eq!(generate_document_etag(content1), generate_document_etag(content2));

    // Different content should generate different etag
    assert_ne!(generate_document_etag(content1), generate_document_etag(content3));
}

#[test]
fn test_headline_etag_generation() {
    // Create two identical headlines
    let title1 = OrgTitle::new(
        "Test Headline".to_string(),
        1,
        None,
        vec!["tag1".to_string()],
        Some("TODO".to_string()),
    );

    let headline1 = OrgHeadline::new(
        "1".to_string(),
        "doc1".to_string(),
        title1.clone(),
        "Content".to_string(),
    );

    let headline2 = OrgHeadline::new(
        "2".to_string(), // Different ID
        "doc1".to_string(),
        title1,
        "Content".to_string(),
    );

    // Create a headline with different content
    let title3 = OrgTitle::new(
        "Different Headline".to_string(),
        1,
        None,
        vec!["tag1".to_string()],
        Some("TODO".to_string()),
    );

    let headline3 = OrgHeadline::new(
        "3".to_string(),
        "doc1".to_string(),
        title3,
        "Content".to_string(),
    );

    // Same content should generate same etag (ID is not included in etag)
    assert_eq!(generate_headline_etag(&headline1), generate_headline_etag(&headline2));

    // Different content should generate different etag
    assert_ne!(generate_headline_etag(&headline1), generate_headline_etag(&headline3));
}

fn leaf(id: &str, level: usize, raw: &str, content: &str) -> OrgHeadline {
    OrgHeadline::new(
        id.to_string(),
        String::new(),
        OrgTitle::simple(raw, level),
        content.to_string(),
    )
}

#[test]
fn test_grandchild_content_changes_root_etag() {
    // Two trees differing only in the grandchild's body text must give the
    // root different tags: each tag rolls up the children's finished tags.
    let flat_a = vec![
        leaf("1", 1, "Root", "root body"),
        leaf("2", 2, "Child", "child body"),
        leaf("3", 3, "Grandchild", "old text"),
    ];
    let flat_b = vec![
        leaf("1", 1, "Root", "root body"),
        leaf("2", 2, "Child", "child body"),
        leaf("3", 3, "Grandchild", "new text"),
    ];
    let forest_a = build_headline_hierarchy(flat_a);
    let forest_b = build_headline_hierarchy(flat_b);
    assert_eq!(forest_a.len(), 1);
    assert_eq!(forest_b.len(), 1);
    assert_ne!(forest_a[0].etag, forest_b[0].etag);
    assert_ne!(forest_a[0].children[0].etag, forest_b[0].children[0].etag);
    assert_ne!(
        forest_a[0].children[0].children[0].etag,
        forest_b[0].children[0].children[0].etag
    );
}

#[test]
fn test_title_text_changes_etag() {
    let a = leaf("1", 1, "One title", "same body");
    let b = leaf("1", 1, "Another title", "same body");
    assert_ne!(generate_headline_etag(&a), generate_headline_etag(&b));
}
