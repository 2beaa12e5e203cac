use rustydocker::search::{search_spans, split_highlight};

#[test]
fn search_spans_are_case_insensitive() {
    let spans = search_spans("error", "ERROR: disk error").unwrap();
    assert_eq!(spans, vec![(0, 5), (12, 17)]);
}

#[test]
fn search_spans_fall_back_to_literal_text() {
    // "a(" does not compile as a pattern, so it is searched for literally.
    let spans = search_spans("a(", "call a(1) and A(2)").unwrap();
    assert_eq!(spans, vec![(5, 7), (14, 16)]);
}

#[test]
fn search_spans_empty_query_is_none() {
    assert_eq!(search_spans("", "anything"), None);
}

#[test]
fn search_spans_regex_alternatives() {
    let spans = search_spans("warn|err", "warn then err").unwrap();
    assert_eq!(spans, vec![(0, 4), (10, 13)]);
}

#[test]
fn split_highlight_marks_matches() {
    let line = "GET /api 200 ok";
    let spans = search_spans("api", line).unwrap();
    let pieces = split_highlight(line, &spans);
    assert_eq!(
        pieces,
        vec![("GET /".to_string(), false), ("api".to_string(), true), (" 200 ok".to_string(), false)]
    );
}

#[test]
fn split_highlight_adjacent_and_edges() {
    let pieces = split_highlight("abab", &vec![(0, 2), (2, 4)]);
    assert_eq!(pieces, vec![("ab".to_string(), true), ("ab".to_string(), true)]);
    let pieces = split_highlight("xyz", &vec![]);
    assert_eq!(pieces, vec![("xyz".to_string(), false)]);
}

#[test]
fn split_highlight_multibyte_text() {
    let line = "héllo wörld";
    let spans = search_spans("wö", line).unwrap();
    let pieces = split_highlight(line, &spans);
    let joined: String = pieces.iter().map(|(s, _)| s.as_str()).collect();
    assert_eq!(joined, line);
    assert_eq!(pieces[1], ("wö".to_string(), true));
}
