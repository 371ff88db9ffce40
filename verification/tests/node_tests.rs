use pretty_git_prompt::error::ConfigError;
use pretty_git_prompt::node::{parse_document, pick_document, ConfNode};

#[test]
fn parse_document_reads_a_table() {
    let node = parse_document("version: '1'\nvalues: []").unwrap();
    assert_eq!(
        node,
        ConfNode::Table(vec![
            (ConfNode::Text(String::from("version")), ConfNode::Text(String::from("1"))),
            (ConfNode::Text(String::from("values")), ConfNode::List(vec![])),
        ])
    );
}

#[test]
fn parse_document_keeps_variants_apart() {
    let node = parse_document("a: 1\nb: 2.5\nc: true\nd: ~\ne: text\nf: [x, 'y']\ng: {h: i}").unwrap();
    assert_eq!(node.get("a"), Some(&ConfNode::Integer(1)));
    assert_eq!(node.get("b"), Some(&ConfNode::Real(String::from("2.5"))));
    assert_eq!(node.get("c"), Some(&ConfNode::Flag(true)));
    assert_eq!(node.get("d"), Some(&ConfNode::Null));
    assert_eq!(node.get("e"), Some(&ConfNode::Text(String::from("text"))));
    assert_eq!(
        node.get("f"),
        Some(&ConfNode::List(vec![
            ConfNode::Text(String::from("x")),
            ConfNode::Text(String::from("y")),
        ]))
    );
    assert_eq!(
        node.get("g"),
        Some(&ConfNode::Table(vec![(
            ConfNode::Text(String::from("h")),
            ConfNode::Text(String::from("i")),
        )]))
    );
    assert_eq!(node.get("z"), None);
}

#[test]
fn parse_document_keeps_the_order_of_entries() {
    let node = parse_document("z: 1\na: 2\nm: 3").unwrap();
    match node {
        ConfNode::Table(entries) => {
            let keys: Vec<ConfNode> = entries.into_iter().map(|(k, _)| k).collect();
            assert_eq!(
                keys,
                vec![
                    ConfNode::Text(String::from("z")),
                    ConfNode::Text(String::from("a")),
                    ConfNode::Text(String::from("m")),
                ]
            );
        }
        other => panic!("not a table: {:?}", other),
    }
}

#[test]
fn parse_document_gives_the_first_document() {
    let node = parse_document("---\nfirst: 1\n---\nsecond: 2\n").unwrap();
    assert_eq!(node.get("first"), Some(&ConfNode::Integer(1)));
    assert_eq!(node.get("second"), None);
}

#[test]
fn parse_document_refuses_what_is_not_yaml() {
    assert_eq!(parse_document("a: [1, 2"), Err(ConfigError::Syntax));
    assert_eq!(parse_document("a: 'unclosed"), Err(ConfigError::Syntax));
}

#[test]
fn parse_document_refuses_empty_text() {
    assert_eq!(parse_document(""), Err(ConfigError::NoDocument));
}

#[test]
fn pick_document_takes_the_first() {
    assert_eq!(pick_document(None), Err(ConfigError::Syntax));
    assert_eq!(pick_document(Some(vec![])), Err(ConfigError::NoDocument));
    assert_eq!(
        pick_document(Some(vec![ConfNode::Integer(1), ConfNode::Integer(2)])),
        Ok(ConfNode::Integer(1))
    );
}

#[test]
fn accessors_read_by_type() {
    let node = parse_document("t: 'x'\nf: false\nl: [1]\nn: ~\ne: ''").unwrap();
    assert_eq!(node.get_str("t"), Some("x"));
    assert_eq!(node.get_str("e"), Some(""));
    assert_eq!(node.get_str("f"), None);
    assert_eq!(node.get_str("missing"), None);
    assert_eq!(node.get_bool("f"), Some(false));
    assert_eq!(node.get_bool("t"), None);
    assert_eq!(node.get_vec("l"), Some(&vec![ConfNode::Integer(1)]));
    assert_eq!(node.get_vec("t"), None);
    assert!(node.is_missing("n"));
    assert!(node.is_missing("missing"));
    assert!(!node.is_missing("t"));
    assert!(!node.is_missing("e"));
    assert!(ConfNode::BadValue.is_missing("t"));
    assert_eq!(ConfNode::Text(String::from("t")).get("t"), None);
}

#[test]
fn get_takes_the_first_entry_with_the_key() {
    let node = ConfNode::Table(vec![
        (ConfNode::Integer(1), ConfNode::Text(String::from("number"))),
        (ConfNode::Text(String::from("k")), ConfNode::Text(String::from("first"))),
        (ConfNode::Text(String::from("k")), ConfNode::Text(String::from("second"))),
    ]);
    assert_eq!(node.get_str("k"), Some("first"));
    assert_eq!(node.get_str("1"), None);
}
