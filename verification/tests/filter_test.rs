use rustydocker::filter::{filter_positions, rank_positions};

#[test]
fn ranking_puts_best_scores_first_and_keeps_ties_in_order() {
    let scores = vec![Some(5), None, Some(9), Some(5), Some(-1)];
    assert_eq!(rank_positions(&scores), vec![2, 0, 3, 4]);
    assert!(rank_positions(&vec![None, None]).is_empty());
    assert!(rank_positions(&vec![]).is_empty());
}

#[test]
fn empty_filter_keeps_everything() {
    let choices = vec!["b".to_string(), "a".to_string()];
    assert_eq!(filter_positions(&choices, ""), vec![0, 1]);
}

#[test]
fn fuzzy_filter_keeps_matches_only() {
    let choices = vec!["nginx".to_string(), "postgres".to_string(), "redis".to_string()];
    assert_eq!(filter_positions(&choices, "pg"), vec![1]);
    assert!(filter_positions(&choices, "zzz").is_empty());
}
