use org_x::headline::OrgHeadline;
use org_x::hierarchy::build_headline_hierarchy;
use org_x::title::OrgTitle;

fn leaf(id: &str, level: usize) -> OrgHeadline {
    OrgHeadline::new(
        id.to_string(),
        String::new(),
        OrgTitle::simple("Headline", level),
        String::new(),
    )
}

#[test]
fn test_hierarchy_nesting_by_levels() {
    // Levels 1, 2, 3, 2, 1: two roots; the first root holds one child, which
    // holds one child of its own; the second root holds none.
    let flat = vec![leaf("1", 1), leaf("2", 2), leaf("3", 3), leaf("4", 2), leaf("5", 1)];
    let forest = build_headline_hierarchy(flat);
    assert_eq!(forest.len(), 2);
    assert_eq!(forest[0].id, "1");
    assert_eq!(forest[0].children.len(), 2);
    assert_eq!(forest[0].children[0].id, "2");
    assert_eq!(forest[0].children[0].children.len(), 1);
    assert_eq!(forest[0].children[0].children[0].id, "3");
    assert_eq!(forest[0].children[1].id, "4");
    assert_eq!(forest[0].children[1].children.len(), 0);
    assert_eq!(forest[1].id, "5");
    assert_eq!(forest[1].children.len(), 0);
}

#[test]
fn test_hierarchy_two_roots_shape() {
    // Exactly the shape the levels dictate: root 0 has one child with one
    // child; root 1 has none.
    let flat = vec![leaf("1", 1), leaf("2", 2), leaf("3", 3), leaf("4", 1)];
    let forest = build_headline_hierarchy(flat);
    assert_eq!(forest.len(), 2);
    assert_eq!(forest[0].children.len(), 1);
    assert_eq!(forest[0].children[0].children.len(), 1);
    assert_eq!(forest[0].children[0].children[0].children.len(), 0);
    assert_eq!(forest[1].children.len(), 0);
}

#[test]
fn test_hierarchy_non_contiguous_levels() {
    // A level-3 headline right after a level-1 one still nests one level
    // under it: nesting follows the nearest shallower predecessor, not level
    // arithmetic.
    let flat = vec![leaf("1", 1), leaf("2", 3)];
    let forest = build_headline_hierarchy(flat);
    assert_eq!(forest.len(), 1);
    assert_eq!(forest[0].children.len(), 1);
    assert_eq!(forest[0].children[0].id, "2");
    assert_eq!(forest[0].children[0].children.len(), 0);
}

#[test]
fn test_hierarchy_non_increasing_levels_all_roots() {
    // Non-increasing levels never nest: the forest stays flat.
    let flat = vec![leaf("1", 3), leaf("2", 2), leaf("3", 2), leaf("4", 1)];
    let forest = build_headline_hierarchy(flat);
    assert_eq!(forest.len(), 4);
    for root in &forest {
        assert_eq!(root.children.len(), 0);
    }
}

#[test]
fn test_hierarchy_assigns_etags_bottom_up() {
    let flat = vec![leaf("1", 1), leaf("2", 2)];
    let forest = build_headline_hierarchy(flat);
    assert_eq!(forest.len(), 1);
    assert!(!forest[0].etag.is_empty());
    assert!(!forest[0].children[0].etag.is_empty());
}
