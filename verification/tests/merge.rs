use pulseprint::json::parse_report;
use pulseprint::merge::{deep_merge, is_retained, placeholder_name};
use pulseprint::number::Number;
use pulseprint::tree::Tree;

fn doc(text: &str) -> Tree {
    parse_report(text.as_bytes()).expect("a document")
}

#[test]
fn merging_the_empty_object_changes_nothing() {
    let kept = doc(r#"{"print":{"mc_percent":42,"subtask_name":"cube","a":[1,2]},"x":null}"#);
    assert_eq!(deep_merge(&kept, &Tree::empty_object()), kept);
    assert_eq!(deep_merge(&Tree::empty_object(), &Tree::empty_object()), Tree::empty_object());
}

#[test]
fn merging_the_empty_object_into_a_scalar_replaces_it() {
    assert_eq!(deep_merge(&doc("5"), &Tree::empty_object()), Tree::empty_object());
}

#[test]
fn a_zero_percentage_does_not_reset_progress_under_way() {
    let merged = deep_merge(&doc(r#"{"mc_percent":42}"#), &doc(r#"{"mc_percent":0}"#));
    assert_eq!(merged, doc(r#"{"mc_percent":42}"#));
    let merged = deep_merge(&doc(r#"{"mc_percent":0}"#), &doc(r#"{"mc_percent":0}"#));
    assert_eq!(merged, doc(r#"{"mc_percent":0}"#));
}

#[test]
fn a_zero_percentage_replaces_a_finished_or_unstarted_one() {
    let merged = deep_merge(&doc(r#"{"mc_percent":100}"#), &doc(r#"{"mc_percent":0}"#));
    assert_eq!(merged, doc(r#"{"mc_percent":0}"#));
    let merged = deep_merge(&doc(r#"{"mc_percent":150}"#), &doc(r#"{"mc_percent":0}"#));
    assert_eq!(merged, doc(r#"{"mc_percent":0}"#));
    let merged = deep_merge(&doc(r#"{"mc_percent":-3}"#), &doc(r#"{"mc_percent":0}"#));
    assert_eq!(merged, doc(r#"{"mc_percent":0}"#));
    let merged = deep_merge(&doc(r#"{"mc_percent":"42"}"#), &doc(r#"{"mc_percent":0}"#));
    assert_eq!(merged, doc(r#"{"mc_percent":0}"#));
}

#[test]
fn a_percentage_that_is_no_number_counts_as_a_gap() {
    let merged = deep_merge(&doc(r#"{"mc_percent":42.5}"#), &doc(r#"{"mc_percent":null}"#));
    assert_eq!(merged, doc(r#"{"mc_percent":42.5}"#));
    let merged = deep_merge(&doc(r#"{"mc_percent":42}"#), &doc(r#"{"mc_percent":0.0}"#));
    assert_eq!(merged, doc(r#"{"mc_percent":42}"#));
    let merged = deep_merge(&doc(r#"{"mc_percent":42}"#), &doc(r#"{"mc_percent":43}"#));
    assert_eq!(merged, doc(r#"{"mc_percent":43}"#));
}

#[test]
fn retention_of_the_percentage_goes_by_the_exact_values() {
    let tiny = r#"{"mc_percent":5e-324}"#;
    let merged = deep_merge(&doc(r#"{"mc_percent":50}"#), &doc(tiny));
    assert_eq!(merged, doc(tiny));
    let merged = deep_merge(&doc(r#"{"mc_percent":50}"#), &doc(r#"{"mc_percent":0.0004}"#));
    assert_eq!(merged, doc(r#"{"mc_percent":0.0004}"#));
    let merged = deep_merge(&doc(r#"{"mc_percent":99.9996}"#), &doc(r#"{"mc_percent":0}"#));
    assert_eq!(merged, doc(r#"{"mc_percent":99.9996}"#));
    let merged = deep_merge(&doc(r#"{"mc_percent":0.0004}"#), &doc(r#"{"mc_percent":0}"#));
    assert_eq!(merged, doc(r#"{"mc_percent":0.0004}"#));
    let merged = deep_merge(&doc(tiny), &doc(r#"{"mc_percent":-0.0}"#));
    assert_eq!(merged, doc(tiny));
    let merged = deep_merge(&doc(r#"{"mc_percent":100.0}"#), &doc(r#"{"mc_percent":0}"#));
    assert_eq!(merged, doc(r#"{"mc_percent":0}"#));
    let merged = deep_merge(&doc(r#"{"mc_percent":100.0004}"#), &doc(r#"{"mc_percent":0}"#));
    assert_eq!(merged, doc(r#"{"mc_percent":0}"#));
    let merged = deep_merge(&doc(r#"{"mc_percent":-0.0004}"#), &doc(r#"{"mc_percent":0}"#));
    assert_eq!(merged, doc(r#"{"mc_percent":0}"#));
    let merged = deep_merge(&doc(r#"{"mc_percent":0.0}"#), &doc(r#"{"mc_percent":0}"#));
    assert_eq!(merged, doc(r#"{"mc_percent":0}"#));
}

#[test]
fn a_zero_remaining_time_does_not_reset_a_positive_one() {
    let merged = deep_merge(&doc(r#"{"mc_remaining_time":120}"#), &doc(r#"{"mc_remaining_time":0}"#));
    assert_eq!(merged, doc(r#"{"mc_remaining_time":120}"#));
    let merged = deep_merge(&doc(r#"{"mc_remaining_time":120}"#), &doc(r#"{"mc_remaining_time":5.5}"#));
    assert_eq!(merged, doc(r#"{"mc_remaining_time":120}"#));
    let merged = deep_merge(&doc(r#"{"mc_remaining_time":0}"#), &doc(r#"{"mc_remaining_time":0}"#));
    assert_eq!(merged, doc(r#"{"mc_remaining_time":0}"#));
    let merged = deep_merge(&doc(r#"{"mc_remaining_time":-4}"#), &doc(r#"{"mc_remaining_time":0}"#));
    assert_eq!(merged, doc(r#"{"mc_remaining_time":0}"#));
    let merged = deep_merge(&doc(r#"{"mc_remaining_time":120}"#), &doc(r#"{"mc_remaining_time":90}"#));
    assert_eq!(merged, doc(r#"{"mc_remaining_time":90}"#));
}

#[test]
fn an_empty_job_name_does_not_replace_a_name() {
    let merged = deep_merge(&doc(r#"{"subtask_name":"cube"}"#), &doc(r#"{"subtask_name":""}"#));
    assert_eq!(merged, doc(r#"{"subtask_name":"cube"}"#));
    let merged = deep_merge(&doc(r#"{"subtask_name":"cube"}"#), &doc(r#"{"subtask_name":null}"#));
    assert_eq!(merged, doc(r#"{"subtask_name":"cube"}"#));
    let merged = deep_merge(&doc(r#"{"subtask_name":"Unknown"}"#), &doc(r#"{"subtask_name":""}"#));
    assert_eq!(merged, doc(r#"{"subtask_name":""}"#));
    let merged = deep_merge(&doc(r#"{"subtask_name":"undefined"}"#), &doc(r#"{"subtask_name":""}"#));
    assert_eq!(merged, doc(r#"{"subtask_name":""}"#));
    let merged = deep_merge(&doc(r#"{"subtask_name":"cube"}"#), &doc(r#"{"subtask_name":"ball"}"#));
    assert_eq!(merged, doc(r#"{"subtask_name":"ball"}"#));
}

#[test]
fn retention_reaches_into_nested_objects() {
    let kept = doc(r#"{"print":{"mc_percent":55,"mc_remaining_time":120,"layer_num":10}}"#);
    let report = doc(r#"{"print":{"mc_percent":0,"mc_remaining_time":0,"layer_num":0,"fan_gear":3}}"#);
    let merged = deep_merge(&kept, &report);
    let print = merged.get("print").unwrap();
    assert_eq!(print.get("mc_percent").unwrap().as_i64(), Some(55));
    assert_eq!(print.get("mc_remaining_time").unwrap().as_i64(), Some(120));
    assert_eq!(print.get("layer_num").unwrap().as_i64(), Some(0));
    assert_eq!(print.get("fan_gear").unwrap().as_i64(), Some(3));
}

#[test]
fn old_keys_keep_their_place_and_new_keys_follow() {
    let kept = Tree::Object(vec![
        ("z".to_string(), Tree::Null),
        ("a".to_string(), Tree::Bool(true)),
    ]);
    let report = Tree::Object(vec![
        ("m".to_string(), Tree::Number(Number::PosInt(1))),
        ("a".to_string(), Tree::Bool(false)),
        ("b".to_string(), Tree::Null),
    ]);
    let expected = Tree::Object(vec![
        ("z".to_string(), Tree::Null),
        ("a".to_string(), Tree::Bool(false)),
        ("m".to_string(), Tree::Number(Number::PosInt(1))),
        ("b".to_string(), Tree::Null),
    ]);
    assert_eq!(deep_merge(&kept, &report), expected);
}

#[test]
fn anything_but_two_objects_is_replaced() {
    assert_eq!(deep_merge(&doc("[1,2]"), &doc("[3]")), doc("[3]"));
    assert_eq!(deep_merge(&doc(r#"{"a":1}"#), &doc("7")), doc("7"));
    assert_eq!(deep_merge(&doc(r#"{"a":{"b":1}}"#), &doc(r#"{"a":[1]}"#)), doc(r#"{"a":[1]}"#));
    assert_eq!(deep_merge(&doc(r#"{"a":[1]}"#), &doc(r#"{"a":{"b":1}}"#)), doc(r#"{"a":{"b":1}}"#));
}

#[test]
fn is_retained_goes_by_the_key() {
    assert!(is_retained("mc_percent", &doc("42"), &doc("0")));
    assert!(!is_retained("other", &doc("42"), &doc("0")));
    assert!(!is_retained("mc_remaining_time", &doc("42.0"), &doc("0")));
    assert!(is_retained("subtask_name", &doc("\"cube\""), &doc("0")));
    assert!(placeholder_name(""));
    assert!(placeholder_name("Unknown"));
    assert!(placeholder_name("undefined"));
    assert!(!placeholder_name("unknown"));
}

#[test]
fn merging_the_same_report_again_changes_nothing() {
    let kept = doc(r#"{"print":{"mc_percent":55,"mc_remaining_time":120,"subtask_name":"cube","a":{"b":1}},"x":[1]}"#);
    let reports = [
        r#"{"print":{"mc_percent":0,"mc_remaining_time":0,"subtask_name":"","a":{"c":2},"new":{"n":null}},"y":{"z":{}}}"#,
        r#"{"print":{"mc_percent":60,"a":5},"x":{"now":"an object"}}"#,
        r#"{"print":7}"#,
        r#"{}"#,
    ];
    for report in reports {
        let report = doc(report);
        let once = deep_merge(&kept, &report);
        let twice = deep_merge(&once, &report);
        assert_eq!(twice, once);
        assert_eq!(deep_merge(&report, &report), report);
    }
}
