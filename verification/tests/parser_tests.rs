use org_x::parser::{
    extract_todo_keywords_from_content, parse_org_document, parse_org_document_with_keywords,
    parse_sample_org, OrgError,
};

#[test]
fn parser_test_parse_simple_org() {
    let content = "#+TITLE: Test Document\n#+CATEGORY: Test\n#+FILETAGS: :test:simple:\n\n* Heading 1\nContent 1\n\n* TODO Heading 2                                                         :tag1:\nContent 2\n";

    let doc = parse_org_document(content, Some("test.org")).unwrap();
    assert_eq!(doc.title, "Test Document");
    assert_eq!(doc.category, "Test");
    assert_eq!(doc.filetags, vec!["test".to_string(), "simple".to_string()]);
    assert_eq!(doc.headlines.len(), 2);

    let h1 = &doc.headlines[0];
    assert_eq!(h1.title, "Heading 1");
    assert_eq!(h1.title.level, 1);
    assert!(h1.title.todo_keyword.is_none());
    assert!(h1.is_note());

    let h2 = &doc.headlines[1];
    assert_eq!(h2.title, "Heading 2");
    assert_eq!(h2.title.level, 1);
    assert_eq!(h2.title.todo_keyword, Some("TODO".to_string()));
    assert_eq!(h2.title.tags, vec!["tag1".to_string()]);
    assert!(h2.is_task());
}

#[test]
fn orgmode_test_parse_simple_org() {
    let content = "#+TITLE: Test Document\n#+CATEGORY: Test\n#+FILETAGS: :test:simple:\n\n* Heading 1\nContent 1\n\n* TODO Heading 2                                                         :tag1:\nContent 2\n";

    let doc = parse_org_document(content, Some("test.org")).unwrap();
    assert_eq!(doc.title, "Test Document");
    assert_eq!(doc.category, "Test");
    assert_eq!(doc.filetags, vec!["test".to_string(), "simple".to_string()]);
    assert_eq!(doc.headlines.len(), 2);

    let h1 = &doc.headlines[0];
    assert_eq!(h1.title, "Heading 1");
    assert_eq!(h1.title.level, 1);
    assert!(h1.title.todo_keyword.is_none());
    assert!(h1.is_note());

    let h2 = &doc.headlines[1];
    assert_eq!(h2.title, "Heading 2");
    assert_eq!(h2.title.level, 1);
    assert_eq!(h2.title.todo_keyword, Some("TODO".to_string()));
    assert_eq!(h2.title.tags, vec!["tag1".to_string()]);
    assert!(h2.is_task());
}

#[test]
fn parser_test_sample_org() {
    let doc = parse_sample_org();
    assert_eq!(doc.title, "Sample Org Document");
    assert_eq!(doc.category, "Demo");
    assert_eq!(doc.filetags, vec!["demo".to_string(), "sample".to_string()]);

    // Check number of headlines
    assert_eq!(doc.headlines.len(), 2);

    // Check first headline
    let h1 = &doc.headlines[0];
    assert_eq!(h1.title, "Shopping List [0/3]");
    assert_eq!(h1.title.todo_keyword, Some("TODO".to_string()));
    assert_eq!(h1.title.tags.len(), 2);
    assert!(h1.title.tags.contains(&"shopping".to_string()));
    assert!(h1.title.tags.contains(&"chores".to_string()));
    assert!(h1.is_task());

    // Check that h1 has the correct category from properties
    assert_eq!(h1.get_category(&doc), "Shopping");

    // Check second headline
    let h2 = &doc.headlines[1];
    assert_eq!(h2.title, "Meeting Notes");
    assert_eq!(h2.title.tags, vec!["work".to_string()]);
    assert!(h2.is_note());

    // Check that h2 inherits the document category
    assert_eq!(h2.get_category(&doc), "Demo");

    // Check that Meeting Notes has children
    assert_eq!(h2.children.len(), 2);

    // Check first child of Meeting Notes
    let h2_1 = &h2.children[0];
    assert_eq!(h2_1.title, "Progress Report");
    assert_eq!(h2_1.title.level, 2);
    assert_eq!(h2_1.title.todo_keyword, Some("DONE".to_string()));
    assert_eq!(h2_1.title.tags, vec!["important".to_string()]);
    assert!(h2_1.is_task());

    // Check second child of Meeting Notes
    let h2_2 = &h2.children[1];
    assert_eq!(h2_2.title, "Next Steps Planning");
    assert_eq!(h2_2.title.level, 2);
    assert_eq!(h2_2.title.todo_keyword, Some("TODO".to_string()));
    assert!(h2_2.title.tags.is_empty());
    assert!(h2_2.is_task());
}

#[test]
fn orgmode_test_sample_org() {
    let doc = parse_sample_org();
    assert_eq!(doc.title, "Sample Org Document");
    assert_eq!(doc.category, "Demo");
    assert_eq!(doc.filetags, vec!["demo".to_string(), "sample".to_string()]);

    // Check number of headlines
    assert_eq!(doc.headlines.len(), 2);

    // Check first headline
    let h1 = &doc.headlines[0];
    assert_eq!(h1.title, "Shopping List [0/3]");
    assert_eq!(h1.title.todo_keyword, Some("TODO".to_string()));
    assert_eq!(h1.title.tags.len(), 2);
    assert!(h1.title.tags.contains(&"shopping".to_string()));
    assert!(h1.title.tags.contains(&"chores".to_string()));
    assert!(h1.is_task());
    assert_eq!(h1.get_category(&doc), "Shopping");

    // Check second headline
    let h2 = &doc.headlines[1];
    assert_eq!(h2.title, "Meeting Notes");
    assert_eq!(h2.title.tags, vec!["work".to_string()]);
    assert!(h2.is_note());
    assert_eq!(h2.get_category(&doc), "Demo");
    assert_eq!(h2.children.len(), 2);

    let h2_1 = &h2.children[0];
    assert_eq!(h2_1.title, "Progress Report");
    assert_eq!(h2_1.title.level, 2);
    assert_eq!(h2_1.title.todo_keyword, Some("DONE".to_string()));
    assert_eq!(h2_1.title.tags, vec!["important".to_string()]);
    assert!(h2_1.is_task());

    let h2_2 = &h2.children[1];
    assert_eq!(h2_2.title, "Next Steps Planning");
    assert_eq!(h2_2.title.level, 2);
    assert_eq!(h2_2.title.todo_keyword, Some("TODO".to_string()));
    assert!(h2_2.title.tags.is_empty());
    assert!(h2_2.is_task());
}

#[test]
fn parser_test_headline_hierarchy() {
    let content = "#+TITLE: Hierarchy Test\n\n* Level 1 Headline\nContent for level 1\n** Level 2 Headline\nContent for level 2\n*** Level 3 Headline\nContent for level 3\n** Another Level 2\nMore level 2 content\n* Another Level 1\nSecond level 1 content\n";

    let doc = parse_org_document(content, None).unwrap();

    // Should have 2 top-level headlines
    assert_eq!(doc.headlines.len(), 2);

    // Check first top-level headline and its children
    let h1 = &doc.headlines[0];
    assert_eq!(h1.title.raw, "Level 1 Headline");
    assert_eq!(h1.title.level, 1);
    assert_eq!(h1.children.len(), 2); // Should have 2 level-2 children

    // Check first child of first headline
    let h1_1 = &h1.children[0];
    assert_eq!(h1_1.title.raw, "Level 2 Headline");
    assert_eq!(h1_1.title.level, 2);
    assert_eq!(h1_1.children.len(), 1); // Should have 1 level-3 child

    // Check level-3 headline
    let h1_1_1 = &h1_1.children[0];
    assert_eq!(h1_1_1.title.raw, "Level 3 Headline");
    assert_eq!(h1_1_1.title.level, 3);
    assert_eq!(h1_1_1.children.len(), 0); // No children

    // Check second child of first headline
    let h1_2 = &h1.children[1];
    assert_eq!(h1_2.title.raw, "Another Level 2");
    assert_eq!(h1_2.title.level, 2);
    assert_eq!(h1_2.children.len(), 0); // No children

    // Check second top-level headline
    let h2 = &doc.headlines[1];
    assert_eq!(h2.title.raw, "Another Level 1");
    assert_eq!(h2.title.level, 1);
    assert_eq!(h2.children.len(), 0); // No children
}

#[test]
fn orgmode_test_headline_hierarchy() {
    let content = "#+TITLE: Hierarchy Test\n\n* Level 1 Headline\nContent for level 1\n** Level 2 Headline\nContent for level 2\n*** Level 3 Headline\nContent for level 3\n** Another Level 2\nMore level 2 content\n* Another Level 1\nSecond level 1 content\n";

    let doc = parse_org_document(content, None).unwrap();

    assert_eq!(doc.headlines.len(), 2);

    let h1 = &doc.headlines[0];
    assert_eq!(h1.title, "Level 1 Headline");
    assert_eq!(h1.title.level, 1);
    assert_eq!(h1.children.len(), 2);

    let h1_1 = &h1.children[0];
    assert_eq!(h1_1.title, "Level 2 Headline");
    assert_eq!(h1_1.title.level, 2);
    assert_eq!(h1_1.children.len(), 1);

    let h1_1_1 = &h1_1.children[0];
    assert_eq!(h1_1_1.title, "Level 3 Headline");
    assert_eq!(h1_1_1.title.level, 3);
    assert_eq!(h1_1_1.children.len(), 0);

    let h1_2 = &h1.children[1];
    assert_eq!(h1_2.title, "Another Level 2");
    assert_eq!(h1_2.title.level, 2);
    assert_eq!(h1_2.children.len(), 0);

    let h2 = &doc.headlines[1];
    assert_eq!(h2.title, "Another Level 1");
    assert_eq!(h2.title.level, 1);
    assert_eq!(h2.children.len(), 0);
}

#[test]
fn test_property_extraction() {
    let content = "#+TITLE: Property Test\n\n* Headline with Properties                                                  :tag:\n:PROPERTIES:\n:CATEGORY: TestCategory\n:DEADLINE: <2025-05-01 Thu>\n:CUSTOM_PROP: CustomValue\n:END:\nContent of headline\n\n* Regular Headline\nNo properties here\n\n* Shopping List [0/3]                                                 :shopping:\n:PROPERTIES:\n:CATEGORY: Shopping\n:DEADLINE: <2025-04-15 Tue>\n:END:\n";

    let doc = parse_org_document(content, Some("test.org")).unwrap();

    let h3 = &doc.headlines[2];
    assert_eq!(h3.title, "Shopping List [0/3]");
    assert_eq!(h3.get_category(&doc), "Shopping");

    let h1 = &doc.headlines[0];
    assert_eq!(h1.title, "Headline with Properties");
    assert_eq!(h1.get_category(&doc), "TestCategory");

    // A headline without its own category falls back to the document's, which
    // this document does not set.
    let h2 = &doc.headlines[1];
    assert_eq!(h2.title, "Regular Headline");
    assert_eq!(h2.get_category(&doc), "");
}

#[test]
fn test_scenario_title_and_two_headlines() {
    let content = "#+TITLE: T\n* Heading 1\nBody\n* TODO Heading 2 :tag1:\nBody2\n";
    let doc = parse_org_document(content, None).unwrap();
    assert_eq!(doc.title, "T");
    assert_eq!(doc.headlines.len(), 2);

    let h1 = &doc.headlines[0];
    assert_eq!(h1.title, "Heading 1");
    assert!(h1.title.todo_keyword.is_none());
    assert!(h1.is_note());
    assert_eq!(h1.content, "Body");

    let h2 = &doc.headlines[1];
    assert_eq!(h2.title, "Heading 2");
    assert_eq!(h2.title.todo_keyword, Some("TODO".to_string()));
    assert_eq!(h2.title.tags, vec!["tag1".to_string()]);
    assert!(h2.is_task());
    assert_eq!(h2.content, "Body2");
}

#[test]
fn test_filetags_round_trip() {
    let doc = parse_org_document("#+FILETAGS: :a:b:c:\n", None).unwrap();
    assert_eq!(doc.filetags, vec!["a".to_string(), "b".to_string(), "c".to_string()]);
}

#[test]
fn test_filetags_missing_trailing_colon() {
    // A value missing a trailing colon is silently treated as no tags.
    let doc = parse_org_document("#+FILETAGS: :a:b:c\n", None).unwrap();
    assert!(doc.filetags.is_empty());

    // So is one missing its leading colon.
    let doc2 = parse_org_document("#+FILETAGS: a:b:c:\n", None).unwrap();
    assert!(doc2.filetags.is_empty());
}

#[test]
fn test_untitled_default_and_empty_category() {
    let doc = parse_org_document("* Only a headline\n", None).unwrap();
    assert_eq!(doc.title, "Untitled Document");
    assert_eq!(doc.category, "");
    assert!(doc.todo_config.is_some());
}

#[test]
fn test_todo_keyword_declaration_parsing() {
    let content = "#+TODO: TODO(t) NEXT(n) WAITING(w) | DONE(d) CANCELLED(c)\n* NEXT Move along\n";
    let (active, closed) = extract_todo_keywords_from_content(content);
    assert_eq!(
        active,
        vec!["TODO".to_string(), "NEXT".to_string(), "WAITING".to_string()]
    );
    assert_eq!(closed, vec!["DONE".to_string(), "CANCELLED".to_string()]);

    // The declared keywords classify headline titles.
    let doc = parse_org_document(content, None).unwrap();
    assert_eq!(doc.headlines[0].title.todo_keyword, Some("NEXT".to_string()));
    assert_eq!(doc.headlines[0].title, "Move along");
}

#[test]
fn test_todo_keyword_defaults_without_declaration() {
    let (active, closed) = extract_todo_keywords_from_content("* TODO Task\n");
    assert_eq!(active, vec!["TODO".to_string()]);
    assert_eq!(closed, vec!["DONE".to_string()]);

    // A declaration without a pipe keeps scanning and falls back to defaults.
    let (active2, closed2) = extract_todo_keywords_from_content("#+TODO: ONLYACTIVE\n");
    assert_eq!(active2, vec!["TODO".to_string()]);
    assert_eq!(closed2, vec!["DONE".to_string()]);
}

#[test]
fn test_todo_configuration_from_declaration() {
    // The parsed document's configuration carries the declared keywords, not
    // the defaults.
    let doc = parse_org_document("#+TODO: CUSTOM | DONEX\n* CUSTOM Task\n", None).unwrap();
    let config = doc.todo_config.as_ref().unwrap();
    assert_eq!(config.sequences.len(), 1);
    assert_eq!(config.sequences[0].statuses[0].keyword, "CUSTOM");
    assert!(config.sequences[0].statuses[0].is_active());
    assert_eq!(config.sequences[0].statuses[1].keyword, "DONEX");
    assert!(config.sequences[0].statuses[1].is_closed());
    assert!(config.find_status("TODO").is_none());

    // The declared keyword classified the headline, and it resolves through
    // the configuration.
    let h = &doc.headlines[0];
    assert_eq!(h.title.todo_keyword, Some("CUSTOM".to_string()));
    let status = h.get_todo_status(config).unwrap();
    assert!(status.is_active());
}

#[test]
fn test_parse_with_keyword_override() {
    // Caller-supplied keywords override the content's own classification.
    let content = "* NEXT Task one\n* TODO Task two\n";
    let doc = parse_org_document_with_keywords(
        content,
        Some("a.org"),
        (vec!["NEXT".to_string()], vec!["FINISHED".to_string()]),
    )
    .unwrap();
    assert_eq!(doc.headlines[0].title.todo_keyword, Some("NEXT".to_string()));
    // "TODO" is not among the supplied keywords, so it stays title text.
    assert!(doc.headlines[1].title.todo_keyword.is_none());
    assert_eq!(doc.headlines[1].title, "TODO Task two");
}

#[test]
fn test_priority_cookie_parsing() {
    let doc = parse_org_document("* TODO [#A] Urgent thing :work:\n", None).unwrap();
    let h = &doc.headlines[0];
    assert_eq!(h.title.todo_keyword, Some("TODO".to_string()));
    assert_eq!(h.title.priority, Some('A'));
    assert_eq!(h.title, "Urgent thing");
    assert_eq!(h.title.tags, vec!["work".to_string()]);
}

#[test]
fn test_document_id_comes_from_path() {
    let doc = parse_org_document("* H\n", Some("/tmp/notes.org")).unwrap();
    assert_eq!(doc.id, "/tmp/notes.org");
    assert_eq!(doc.file_path, "/tmp/notes.org");
    // Every headline carries the document's id.
    assert_eq!(doc.headlines[0].document_id, "/tmp/notes.org");

    // Without a path the id is a generated token.
    let doc2 = parse_org_document("* H\n", None).unwrap();
    assert_eq!(doc2.id.len(), 36);
    assert_eq!(doc2.file_path, "");
}

#[test]
fn test_org_error_messages() {
    let p = OrgError::ParseError("bad".to_string());
    assert_eq!(p.message(), "Failed to parse org document: bad");
    let f = OrgError::FileError("gone".to_string());
    assert_eq!(f.message(), "File error: gone");
}
