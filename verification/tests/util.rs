use godot_cell::declaration::{Attribute, AttributeValue, Token};
use godot_cell::util::{parse_kv_group, path_is_single, same_text, KvError, KvMap, KvValue};

fn ident(text: &str) -> Token {
    Token::Ident(text.to_string())
}

fn lit(text: &str) -> Token {
    Token::Literal(text.to_string())
}

fn group(tokens: Vec<Token>) -> AttributeValue {
    AttributeValue::Group(tokens)
}

fn entries(map: &KvMap) -> Vec<(String, KvValue)> {
    map.keys()
        .into_iter()
        .map(|key| {
            let value = map.get(&key).unwrap().clone();
            (key, value)
        })
        .collect()
}

#[test]
fn same_text_compares_texts() {
    assert!(same_text("base", "base"));
    assert!(same_text("", ""));
    assert!(!same_text("base", "Base"));
    assert!(!same_text("base", "bas"));
}

#[test]
fn new_map_is_empty() {
    let map = KvMap::new();
    assert!(map.is_empty());
    assert_eq!(map.len(), 0);
    assert!(map.keys().is_empty());
    assert!(!map.contains_key("init"));
    assert_eq!(map.get("init"), None);
}

#[test]
fn insert_adds_or_replaces() {
    let mut map = KvMap::new();
    assert_eq!(map.insert("a".to_string(), KvValue::Absent), None);
    assert_eq!(map.insert("b".to_string(), KvValue::Lit("1".to_string())), None);
    assert_eq!(map.insert("c".to_string(), KvValue::Ident("x".to_string())), None);
    assert_eq!(map.len(), 3);
    assert_eq!(
        map.insert("b".to_string(), KvValue::Ident("y".to_string())),
        Some(KvValue::Lit("1".to_string()))
    );
    assert_eq!(map.len(), 3);
    assert_eq!(map.keys(), vec!["a".to_string(), "b".to_string(), "c".to_string()]);
    assert_eq!(map.get("b"), Some(&KvValue::Ident("y".to_string())));
    assert!(map.contains_key("c"));
    assert!(!map.contains_key("d"));
}

#[test]
fn remove_takes_the_entry_out() {
    let mut map = KvMap::new();
    map.insert("a".to_string(), KvValue::Absent);
    map.insert("b".to_string(), KvValue::Lit("1".to_string()));
    map.insert("c".to_string(), KvValue::Ident("x".to_string()));
    assert_eq!(map.remove("b"), Some(KvValue::Lit("1".to_string())));
    assert_eq!(map.remove("b"), None);
    assert_eq!(map.remove("z"), None);
    assert_eq!(map.keys(), vec!["a".to_string(), "c".to_string()]);
    assert_eq!(map.remove("a"), Some(KvValue::Absent));
    assert_eq!(map.remove("c"), Some(KvValue::Ident("x".to_string())));
    assert!(map.is_empty());
}

#[test]
fn path_is_single_wants_one_identifier() {
    assert!(path_is_single(&vec![ident("class")], "class"));
    assert!(!path_is_single(&vec![ident("class")], "base"));
    assert!(!path_is_single(&vec![], "class"));
    assert!(!path_is_single(&vec![lit("class")], "class"));
    assert!(!path_is_single(
        &vec![Token::Punct(':'), Token::Punct(':'), ident("class")],
        "class"
    ));
    assert!(!path_is_single(
        &vec![ident("godot"), Token::Punct(':'), Token::Punct(':'), ident("class")],
        "class"
    ));
}

#[test]
fn single_path_segment_counts_identifiers() {
    let attribute = |path: Vec<Token>| Attribute { path, value: AttributeValue::Empty };
    assert_eq!(
        attribute(vec![ident("export")]).get_single_path_segment(),
        Some(&"export".to_string())
    );
    assert_eq!(
        attribute(vec![Token::Punct(':'), Token::Punct(':'), ident("base")])
            .get_single_path_segment(),
        Some(&"base".to_string())
    );
    assert_eq!(attribute(vec![]).get_single_path_segment(), None);
    assert_eq!(attribute(vec![Token::Punct(':')]).get_single_path_segment(), None);
    assert_eq!(
        attribute(vec![ident("a"), Token::Punct(':'), Token::Punct(':'), ident("b")])
            .get_single_path_segment(),
        None
    );
}

#[test]
fn value_tokens_of_each_form() {
    let tokens = vec![ident("a"), Token::Punct(','), lit("1")];
    assert_eq!(group(tokens.clone()).get_value_tokens(), &tokens[..]);
    assert_eq!(AttributeValue::Equals(tokens.clone()).get_value_tokens(), &tokens[..]);
    assert!(AttributeValue::Empty.get_value_tokens().is_empty());
}

#[test]
fn kv_group_without_tokens_is_empty() {
    assert!(parse_kv_group(&AttributeValue::Empty).unwrap().is_empty());
    assert!(parse_kv_group(&group(vec![])).unwrap().is_empty());
}

#[test]
fn kv_group_reads_keys_alone_and_with_values() {
    let value = group(vec![
        ident("init"),
        Token::Punct(','),
        ident("base"),
        Token::Punct('='),
        ident("Node"),
        Token::Punct(','),
        ident("getter"),
        Token::Punct('='),
        lit("\"get_x\""),
    ]);
    let map = parse_kv_group(&value).unwrap();
    assert_eq!(
        entries(&map),
        vec![
            ("init".to_string(), KvValue::Absent),
            ("base".to_string(), KvValue::Ident("Node".to_string())),
            ("getter".to_string(), KvValue::Lit("\"get_x\"".to_string())),
        ]
    );
}

#[test]
fn kv_group_takes_a_trailing_comma_and_a_last_key() {
    let map = parse_kv_group(&group(vec![ident("a"), Token::Punct(',')])).unwrap();
    assert_eq!(entries(&map), vec![("a".to_string(), KvValue::Absent)]);
    let map = parse_kv_group(&group(vec![ident("a")])).unwrap();
    assert_eq!(entries(&map), vec![("a".to_string(), KvValue::Absent)]);
    let map = parse_kv_group(&group(vec![
        ident("a"),
        Token::Punct('='),
        lit("1"),
        Token::Punct(','),
        ident("b"),
    ]))
    .unwrap();
    assert_eq!(
        entries(&map),
        vec![
            ("a".to_string(), KvValue::Lit("1".to_string())),
            ("b".to_string(), KvValue::Absent),
        ]
    );
    let map = parse_kv_group(&AttributeValue::Equals(vec![ident("a")])).unwrap();
    assert_eq!(entries(&map), vec![("a".to_string(), KvValue::Absent)]);
}

#[test]
fn kv_group_keeps_the_last_value_of_a_repeated_key() {
    let map = parse_kv_group(&group(vec![
        ident("a"),
        Token::Punct('='),
        lit("1"),
        Token::Punct(','),
        ident("b"),
        Token::Punct(','),
        ident("a"),
        Token::Punct('='),
        ident("x"),
    ]))
    .unwrap();
    assert_eq!(
        entries(&map),
        vec![
            ("a".to_string(), KvValue::Ident("x".to_string())),
            ("b".to_string(), KvValue::Absent),
        ]
    );
}

#[test]
fn kv_group_faults() {
    let fault = |tokens: Vec<Token>| parse_kv_group(&group(tokens)).err();
    assert_eq!(fault(vec![lit("1")]), Some(KvError::ExpectedKey { at: 0 }));
    assert_eq!(fault(vec![Token::Punct(',')]), Some(KvError::ExpectedKey { at: 0 }));
    assert_eq!(fault(vec![Token::Group]), Some(KvError::ExpectedKey { at: 0 }));
    assert_eq!(
        fault(vec![ident("a"), ident("b")]),
        Some(KvError::ExpectedEqualsOrComma { at: 1 })
    );
    assert_eq!(
        fault(vec![ident("a"), Token::Punct(';')]),
        Some(KvError::ExpectedEqualsOrComma { at: 1 })
    );
    assert_eq!(
        fault(vec![ident("a"), Token::Punct('='), Token::Punct('=')]),
        Some(KvError::ExpectedValue { at: 2 })
    );
    assert_eq!(
        fault(vec![ident("a"), Token::Punct('='), Token::Group]),
        Some(KvError::ExpectedValue { at: 2 })
    );
    assert_eq!(
        fault(vec![ident("a"), Token::Punct('='), lit("1"), ident("b")]),
        Some(KvError::ExpectedComma { at: 3 })
    );
    assert_eq!(
        fault(vec![ident("a"), Token::Punct('='), lit("1"), Token::Punct('=')]),
        Some(KvError::ExpectedComma { at: 3 })
    );
    assert_eq!(
        fault(vec![ident("a"), Token::Punct(','), Token::Punct(',')]),
        Some(KvError::ExpectedNextKey { at: 2 })
    );
    assert_eq!(
        fault(vec![ident("a"), Token::Punct(','), lit("1")]),
        Some(KvError::ExpectedNextKey { at: 2 })
    );
    assert_eq!(fault(vec![ident("a"), Token::Punct('=')]), Some(KvError::UnexpectedEnd));
    // The first fault is the one that is told.
    assert_eq!(
        fault(vec![ident("a"), ident("b"), Token::Punct('='), Token::Punct('=')]),
        Some(KvError::ExpectedEqualsOrComma { at: 1 })
    );
}
