use pulseprint::json::parse_report;
use pulseprint::number::Number;
use pulseprint::tree::{find_entry, Tree};

fn text(s: &str) -> Tree {
    Tree::String(s.to_string())
}

fn num(n: u64) -> Tree {
    Tree::Number(Number::PosInt(n))
}

fn object(entries: Vec<(&str, Tree)>) -> Tree {
    Tree::Object(entries.into_iter().map(|(k, v)| (k.to_string(), v)).collect())
}

#[test]
fn parse_report_reads_every_kind_of_value() {
    let parsed = parse_report(br#"{"b":true,"a":[1,-2,2.5,null],"s":"x","o":{}}"#).unwrap();
    let expected = object(vec![
        (
            "a",
            Tree::Array(vec![
                num(1),
                Tree::Number(Number::NegInt(-2)),
                Tree::Number(Number::Float(2.5f64.to_bits())),
                Tree::Null,
            ]),
        ),
        ("b", Tree::Bool(true)),
        ("o", object(vec![])),
        ("s", text("x")),
    ]);
    assert_eq!(parsed, expected);
}

#[test]
fn parse_report_refuses_what_is_no_document() {
    assert!(parse_report(b"{\"print\":").is_none());
    assert!(parse_report(b"").is_none());
    assert!(parse_report(b"not json").is_none());
    assert!(parse_report(b"{} trailing").is_none());
}

#[test]
fn parse_report_does_not_hand_the_bytes_back() {
    let parsed = parse_report(b"\"5\"").unwrap();
    assert_eq!(parsed, text("5"));
    let parsed = parse_report(b"5").unwrap();
    assert_eq!(parsed, num(5));
}

#[test]
fn parse_report_keeps_the_last_of_a_repeated_key() {
    let parsed = parse_report(br#"{"k":1,"k":2}"#).unwrap();
    assert_eq!(parsed, object(vec![("k", num(2))]));
}

#[test]
fn parse_report_tells_integers_from_floats() {
    let parsed = parse_report(br#"[120, 120.0, 18446744073709551615, -1, 1e2]"#).unwrap();
    match parsed {
        Tree::Array(items) => {
            assert_eq!(items[0].as_i64(), Some(120));
            assert_eq!(items[1].as_i64(), None);
            assert_eq!(items[1].as_number(), Some(Number::Float(120.0f64.to_bits())));
            assert_eq!(items[2].as_number(), Some(Number::PosInt(u64::MAX)));
            assert_eq!(items[2].as_i64(), None);
            assert_eq!(items[3].as_number(), Some(Number::NegInt(-1)));
            assert_eq!(items[4].as_number(), Some(Number::Float(100.0f64.to_bits())));
        }
        other => panic!("not an array: {other:?}"),
    }
}

#[test]
fn get_finds_the_member_of_an_object() {
    let tree = object(vec![("a", num(1)), ("b", text("two"))]);
    assert_eq!(tree.get("a"), Some(&num(1)));
    assert_eq!(tree.get("b").and_then(|t| t.as_str()), Some("two"));
    assert_eq!(tree.get("c"), None);
    assert_eq!(num(1).get("a"), None);
    assert_eq!(text("x").as_i64(), None);
    assert_eq!(num(3).as_str(), None);
}

#[test]
fn find_entry_gives_the_first_index() {
    let entries = vec![
        ("a".to_string(), num(1)),
        ("b".to_string(), num(2)),
        ("a".to_string(), num(3)),
    ];
    assert_eq!(find_entry(&entries, "a"), Some(0));
    assert_eq!(find_entry(&entries, "b"), Some(1));
    assert_eq!(find_entry(&entries, "z"), None);
}

#[test]
fn clone_copies_the_whole_tree() {
    let tree = object(vec![("a", Tree::Array(vec![num(1), object(vec![("x", Tree::Null)])]))]);
    assert_eq!(tree.clone(), tree);
    assert_eq!(Tree::empty_object(), object(vec![]));
}
