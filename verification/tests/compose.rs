use vt_client::compose::{catalog_entries, RonNode, ShapeError};

type Node = RonNode<i64>;

fn text(s: &str) -> Node {
    RonNode::Text(s.to_string())
}

fn table(entries: Vec<(&str, Node)>) -> Node {
    RonNode::Table(entries.into_iter().map(|(k, v)| (text(k), v)).collect())
}

fn class(name: &str, hull: i64) -> Node {
    table(vec![
        ("name", text(name)),
        ("class", table(vec![("hull", RonNode::Other(hull))])),
    ])
}

fn hull_of(node: &Node) -> i64 {
    match node {
        RonNode::Table(entries) => match &entries[0].1 {
            RonNode::Other(h) => *h,
            _ => panic!("no hull"),
        },
        _ => panic!("not a class body"),
    }
}

#[test]
fn every_authored_class_becomes_a_named_entry_in_file_order() {
    let root = table(vec![(
        "classes",
        RonNode::List(vec![class("corsair_sloop", 100), class("house_patrol", 80)]),
    )]);
    let entries = catalog_entries(&root).expect("a class table");
    assert_eq!(entries.len(), 2);
    assert_eq!(entries[0].0, "corsair_sloop");
    assert_eq!(hull_of(entries[0].1), 100);
    assert_eq!(entries[1].0, "house_patrol");
    assert_eq!(hull_of(entries[1].1), 80);
}

#[test]
fn each_wrong_shape_names_the_part_that_is_wrong() {
    assert_eq!(
        catalog_entries(&RonNode::<i64>::List(vec![])).err(),
        Some(ShapeError::NotAMap("ships.ron root"))
    );
    assert_eq!(
        catalog_entries(&table(vec![("ships", RonNode::List(vec![]))])).err(),
        Some(ShapeError::NotAMap("ships.ron classes"))
    );
    assert_eq!(
        catalog_entries(&table(vec![("classes", text("none"))])).err(),
        Some(ShapeError::NotAMap("ships.ron classes"))
    );
    assert_eq!(
        catalog_entries(&table(vec![(
            "classes",
            RonNode::List(vec![class("ok", 1), text("oops")])
        )]))
        .err(),
        Some(ShapeError::NotAMap("ships.ron class entry"))
    );
    assert_eq!(
        catalog_entries(&table(vec![(
            "classes",
            RonNode::List(vec![table(vec![("name", RonNode::Other(3))])])
        )]))
        .err(),
        Some(ShapeError::NotAMap("ships.ron class name"))
    );
    assert_eq!(
        catalog_entries(&table(vec![(
            "classes",
            RonNode::List(vec![table(vec![("name", text("nameless body"))])])
        )]))
        .err(),
        Some(ShapeError::NotAMap("ships.ron class body"))
    );
}

#[test]
fn an_empty_class_list_is_an_empty_catalogue() {
    let root = table(vec![("classes", RonNode::List(vec![]))]);
    assert!(catalog_entries(&root).expect("well shaped").is_empty());
}
