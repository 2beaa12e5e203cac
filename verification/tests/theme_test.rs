use rustydocker::theme::rule;

#[test]
fn rule_slice_counts_chars_not_bytes() {
    assert_eq!(rule(5).chars().count(), 5);
    assert_eq!(rule(0), "");
    // Clamped to the static length.
    assert!(rule(10_000).chars().count() <= 256);
}
