use pulseprint::text::text_eq;

#[test]
fn text_eq_tells_equal_from_different() {
    assert!(text_eq("Unknown", "Unknown"));
    assert!(!text_eq("Unknown", "undefined"));
    assert!(!text_eq("a", "ab"));
    assert!(text_eq("", ""));
}
