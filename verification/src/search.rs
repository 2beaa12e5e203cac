//! Log search: where a query matches in a line, and the pieces a line splits
//! into around those matches, so that the matches can be highlighted.
use vstd::prelude::*;
use vstd::string::*;
use vstd::utf8::*;

verus! {

broadcast use vstd::utf8::encode_utf8_valid_utf8;

/// The byte spans of the successive non-overlapping matches of `pattern`,
/// built as a case-insensitive regular expression, in `text`; `None` where
/// the pattern does not compile.
pub uninterp spec fn regex_match_spans(pattern: Seq<char>, text: Seq<char>) -> Option<Seq<(nat, nat)>>;

/// Spans that may cut `b`: each starts no later than it ends, each ends no
/// later than the next starts, all lie within `b` and on character
/// boundaries.
pub open spec fn spans_well_formed(b: Seq<u8>, sp: Seq<(nat, nat)>) -> bool {
    &&& forall|i: int| 0 <= i < sp.len() ==> #[trigger] sp[i].0 <= sp[i].1
    &&& forall|i: int, j: int| 0 <= i < j < sp.len() ==> #[trigger] sp[i].1 <= #[trigger] sp[j].0
    &&& forall|i: int| 0 <= i < sp.len() ==> #[trigger] sp[i].1 <= b.len()
    &&& forall|i: int|
        0 <= i < sp.len() ==> is_char_boundary(b, #[trigger] sp[i].0 as int) && is_char_boundary(b, sp[i].1 as int)
}

/// Spans as mathematical integers.
pub open spec fn nat_spans(v: Seq<(usize, usize)>) -> Seq<(nat, nat)> {
    v.map_values(|p: (usize, usize)| (p.0 as nat, p.1 as nat))
}

/// Calls `regex::RegexBuilder::new(pattern).case_insensitive(true).build()`
/// and, where it builds, `find_iter` on `text`, taking each match's start
/// and end. The spans are named `regex_match_spans`; as the crate documents,
/// they are successive, non-overlapping, and fall on character boundaries of
/// the text.
#[verifier::external_body]
fn case_insensitive_spans(pattern: &str, text: &str) -> (r: Option<Vec<(usize, usize)>>)
    ensures
        match r {
            Some(v) => regex_match_spans(pattern@, text@) == Some(nat_spans(v@)) && spans_well_formed(
                text.spec_bytes(),
                nat_spans(v@),
            ),
            None => regex_match_spans(pattern@, text@) is None,
        },
{
    match regex::RegexBuilder::new(pattern).case_insensitive(true).build() {
        Ok(re) => Some(re.find_iter(text).map(|m| (m.start(), m.end())).collect()),
        Err(_) => None,
    }
}

/// The characters that `regex::escape` puts a backslash before.
pub open spec fn is_meta_character(c: char) -> bool {
    c == '\\' || c == '.' || c == '+' || c == '*' || c == '?' || c == '(' || c == ')' || c == '|' || c == '['
        || c == ']' || c == '{' || c == '}' || c == '^' || c == '$' || c == '#' || c == '&' || c == '-' || c
        == '~'
}

/// `s` with a backslash before each meta character: a pattern that matches
/// `s` literally.
pub open spec fn spec_escape(s: Seq<char>) -> Seq<char>
    decreases s.len(),
{
    if s.len() == 0 {
        Seq::empty()
    } else {
        let rest = spec_escape(s.drop_last());
        if is_meta_character(s.last()) {
            rest.push('\\').push(s.last())
        } else {
            rest.push(s.last())
        }
    }
}

/// Calls `regex::escape`, which puts a backslash before each meta character
/// and keeps every other character.
#[verifier::external_body]
fn escape_pattern(s: &str) -> (r: String)
    ensures
        r@ == spec_escape(s@),
{
    regex::escape(s)
}

/// The spans a log search highlights in a line: those of the query as a
/// case-insensitive pattern, or, where it does not compile, of the query
/// taken literally; none for an empty query.
pub open spec fn spec_search_spans(query: Seq<char>, line: Seq<char>) -> Option<Seq<(nat, nat)>> {
    if query.len() == 0 {
        None
    } else {
        match regex_match_spans(query, line) {
            Some(s) => Some(s),
            None => regex_match_spans(spec_escape(query), line),
        }
    }
}

/// The spans of a log search in a line (see `spec_search_spans`).
pub fn search_spans(query: &str, line: &str) -> (r: Option<Vec<(usize, usize)>>)
    ensures
        match r {
            Some(v) => spec_search_spans(query@, line@) == Some(nat_spans(v@)) && spans_well_formed(
                line.spec_bytes(),
                nat_spans(v@),
            ),
            None => spec_search_spans(query@, line@) is None,
        },
{
    if query.is_empty() {
        return None;
    }
    match case_insensitive_spans(query, line) {
        Some(v) => Some(v),
        None => {
            let escaped = escape_pattern(query);
            case_insensitive_spans(escaped.as_str(), line)
        },
    }
}

/// Where the `k` first spans end (0 before the first).
pub open spec fn span_end(sp: Seq<(nat, nat)>, k: int) -> nat {
    if k <= 0 {
        0
    } else {
        sp[k - 1].1
    }
}

/// The pieces of `b` up to the end of the `k` first spans: before each span
/// the unmatched gap, where it is not empty, then the span itself, marked.
pub open spec fn pieces_upto(b: Seq<u8>, sp: Seq<(nat, nat)>, k: int) -> Seq<(Seq<u8>, bool)>
    decreases k,
{
    if k <= 0 {
        Seq::empty()
    } else {
        let p = pieces_upto(b, sp, k - 1);
        let from = span_end(sp, k - 1);
        let s = sp[k - 1].0;
        let e = sp[k - 1].1;
        let p1 = if s > from {
            p.push((b.subrange(from as int, s as int), false))
        } else {
            p
        };
        p1.push((b.subrange(s as int, e as int), true))
    }
}

/// The pieces a line (as bytes) splits into around the spans, each marked
/// whether it is a match: gaps and matches in order, then the rest of the
/// line where any is left.
pub open spec fn spec_highlight(b: Seq<u8>, sp: Seq<(nat, nat)>) -> Seq<(Seq<u8>, bool)> {
    let end = span_end(sp, sp.len() as int);
    let p = pieces_upto(b, sp, sp.len() as int);
    if end < b.len() {
        p.push((b.subrange(end as int, b.len() as int), false))
    } else {
        p
    }
}

/// The bytes of each piece, with its mark.
pub open spec fn piece_bytes(r: Seq<(String, bool)>) -> Seq<(Seq<u8>, bool)> {
    r.map_values(|p: (String, bool)| (encode_utf8(p.0@), p.1))
}

/// The bytes of the pieces, one after another.
pub open spec fn concat_pieces(p: Seq<(Seq<u8>, bool)>) -> Seq<u8>
    decreases p.len(),
{
    if p.len() == 0 {
        Seq::empty()
    } else {
        concat_pieces(p.drop_last()) + p.last().0
    }
}

proof fn lemma_concat_push(p: Seq<(Seq<u8>, bool)>, x: (Seq<u8>, bool))
    ensures
        concat_pieces(p.push(x)) == concat_pieces(p) + x.0,
{
    assert(p.push(x).drop_last() =~= p);
}

proof fn lemma_pieces_upto_concat(b: Seq<u8>, sp: Seq<(nat, nat)>, k: int)
    requires
        spans_well_formed(b, sp),
        0 <= k <= sp.len(),
    ensures
        concat_pieces(pieces_upto(b, sp, k)) == b.subrange(0, span_end(sp, k) as int),
    decreases k,
{
    if k > 0 {
        lemma_pieces_upto_concat(b, sp, k - 1);
        let p = pieces_upto(b, sp, k - 1);
        let from = span_end(sp, k - 1);
        let s = sp[k - 1].0;
        let e = sp[k - 1].1;
        assert(sp[k - 1].0 <= sp[k - 1].1);
        if k > 1 {
            assert(sp[k - 2].1 <= sp[k - 1].0);
        }
        if s > from {
            let g = (b.subrange(from as int, s as int), false);
            lemma_concat_push(p, g);
            lemma_concat_push(p.push(g), (b.subrange(s as int, e as int), true));
            assert(b.subrange(0, from as int) + b.subrange(from as int, s as int) + b.subrange(s as int, e as int)
                =~= b.subrange(0, e as int));
        } else {
            lemma_concat_push(p, (b.subrange(s as int, e as int), true));
            assert(b.subrange(0, from as int) + b.subrange(s as int, e as int) =~= b.subrange(0, e as int));
        }
    } else {
        assert(b.subrange(0, 0) =~= Seq::<u8>::empty());
    }
}

/// The pieces of a highlighted line, put back together, give the line.
pub proof fn law_highlight_pieces_concatenate(b: Seq<u8>, sp: Seq<(nat, nat)>)
    requires
        spans_well_formed(b, sp),
    ensures
        concat_pieces(spec_highlight(b, sp)) == b,
{
    let n = sp.len() as int;
    lemma_pieces_upto_concat(b, sp, n);
    let end = span_end(sp, n);
    if n > 0 {
        assert(sp[n - 1].1 <= b.len());
    }
    if end < b.len() {
        lemma_concat_push(pieces_upto(b, sp, n), (b.subrange(end as int, b.len() as int), false));
        assert(b.subrange(0, end as int) + b.subrange(end as int, b.len() as int) =~= b);
    } else {
        assert(b.subrange(0, end as int) =~= b);
    }
}

/// The bytes of the marked pieces, in order.
pub open spec fn marked_pieces(p: Seq<(Seq<u8>, bool)>) -> Seq<Seq<u8>>
    decreases p.len(),
{
    if p.len() == 0 {
        Seq::empty()
    } else if p.last().1 {
        marked_pieces(p.drop_last()).push(p.last().0)
    } else {
        marked_pieces(p.drop_last())
    }
}

/// The text of each span of `b`.
pub open spec fn span_texts(b: Seq<u8>, sp: Seq<(nat, nat)>) -> Seq<Seq<u8>> {
    sp.map_values(|x: (nat, nat)| b.subrange(x.0 as int, x.1 as int))
}

proof fn lemma_marked_push(p: Seq<(Seq<u8>, bool)>, x: (Seq<u8>, bool))
    ensures
        marked_pieces(p.push(x)) == (if x.1 { marked_pieces(p).push(x.0) } else { marked_pieces(p) }),
{
    assert(p.push(x).drop_last() =~= p);
}

proof fn lemma_marked_upto(b: Seq<u8>, sp: Seq<(nat, nat)>, k: int)
    requires
        0 <= k <= sp.len(),
    ensures
        marked_pieces(pieces_upto(b, sp, k)) == span_texts(b, sp.take(k)),
    decreases k,
{
    if k > 0 {
        lemma_marked_upto(b, sp, k - 1);
        let p = pieces_upto(b, sp, k - 1);
        let from = span_end(sp, k - 1);
        let s = sp[k - 1].0;
        let e = sp[k - 1].1;
        let hit = (b.subrange(s as int, e as int), true);
        if s > from {
            let g = (b.subrange(from as int, s as int), false);
            lemma_marked_push(p, g);
            lemma_marked_push(p.push(g), hit);
        } else {
            lemma_marked_push(p, hit);
        }
        assert(span_texts(b, sp.take(k)) =~= span_texts(b, sp.take(k - 1)).push(b.subrange(s as int, e as int)));
    } else {
        assert(span_texts(b, sp.take(0)) =~= Seq::<Seq<u8>>::empty());
    }
}

/// The marked pieces of a highlighted line are the texts of the spans, one
/// for each span and in order; every other piece is unmarked.
pub proof fn law_highlight_marks_exactly_the_spans(b: Seq<u8>, sp: Seq<(nat, nat)>)
    ensures
        marked_pieces(spec_highlight(b, sp)) == span_texts(b, sp),
{
    let n = sp.len() as int;
    lemma_marked_upto(b, sp, n);
    assert(sp.take(n) =~= sp);
    let end = span_end(sp, n);
    if end < b.len() {
        lemma_marked_push(pieces_upto(b, sp, n), (b.subrange(end as int, b.len() as int), false));
    }
}

/// A cut of valid UTF-8 at a character boundary past `pos` is a boundary of
/// what follows `pos`.
pub(crate) proof fn lemma_boundary_in_rest(b: Seq<u8>, pos: int, x: int)
    requires
        valid_utf8(b),
        is_char_boundary(b, pos),
        is_char_boundary(b, x),
        0 <= pos <= x <= b.len(),
    ensures
        valid_utf8(b.subrange(pos, b.len() as int)),
        is_char_boundary(b.subrange(pos, b.len() as int), x - pos),
{
    let rest = b.subrange(pos, b.len() as int);
    valid_utf8_split(b, pos);
    if x == b.len() {
        is_char_boundary_start_end_of_seq(rest);
        assert(rest.len() == x - pos);
    } else if x == pos {
    } else {
        is_char_boundary_iff_not_is_continuation_byte(b, x);
        is_char_boundary_iff_not_is_continuation_byte(rest, x - pos);
        assert(rest[x - pos] == b[x]);
    }
}

/// Splits a line into pieces around the spans (byte offsets), each marked
/// whether it is a match, for the spans of a search (`search_spans`).
#[verifier::rlimit(30)]
pub fn split_highlight(line: &str, spans: &Vec<(usize, usize)>) -> (r: Vec<(String, bool)>)
    requires
        spans_well_formed(line.spec_bytes(), nat_spans(spans@)),
    ensures
        piece_bytes(r@) == spec_highlight(line.spec_bytes(), nat_spans(spans@)),
{
    let ghost b = line.spec_bytes();
    let ghost sp = nat_spans(spans@);
    let mut r: Vec<(String, bool)> = Vec::new();
    let mut rest: &str = line;
    let mut pos: usize = 0;
    let mut i: usize = 0;
    proof {
        is_char_boundary_start_end_of_seq(b);
        assert(b.subrange(0, b.len() as int) =~= b);
    }
    while i < spans.len()
        invariant
            b == line.spec_bytes(),
            sp == nat_spans(spans@),
            spans_well_formed(b, sp),
            valid_utf8(b),
            i <= spans@.len(),
            pos == span_end(sp, i as int),
            pos <= b.len(),
            is_char_boundary(b, pos as int),
            rest.spec_bytes() == b.subrange(pos as int, b.len() as int),
            piece_bytes(r@) == pieces_upto(b, sp, i as int),
        decreases spans@.len() - i,
    {
        let (s, e) = spans[i];
        assert(sp[i as int] == (s as nat, e as nat));
        proof {
            if i > 0 {
                assert(sp[i - 1].1 <= sp[i as int].0);
            }
        }
        let ghost before = r@;
        if s > pos {
            proof {
                lemma_boundary_in_rest(b, pos as int, s as int);
            }
            let (gap, after) = rest.split_at(s - pos);
            proof {
                assert(gap.spec_bytes() =~= b.subrange(pos as int, s as int));
                assert(after.spec_bytes() =~= b.subrange(s as int, b.len() as int));
            }
            r.push((gap.to_owned(), false));
            rest = after;
        }
        proof {
            lemma_boundary_in_rest(b, s as int, e as int);
        }
        let (hit, after) = rest.split_at(e - s);
        proof {
            assert(hit.spec_bytes() =~= b.subrange(s as int, e as int));
            assert(after.spec_bytes() =~= b.subrange(e as int, b.len() as int));
        }
        r.push((hit.to_owned(), true));
        rest = after;
        pos = e;
        proof {
            assert(piece_bytes(r@) =~= pieces_upto(b, sp, i + 1));
        }
        i = i + 1;
    }
    assert(sp.len() == i);
    assert(pos == span_end(sp, sp.len() as int));
    proof {
        if rest@.len() > 0 {
            assert(encode_utf8(rest@).len() > 0);
        } else {
            assert(encode_utf8(rest@).len() == 0);
        }
    }
    if !rest.is_empty() {
        r.push((rest.to_owned(), false));
        proof {
            assert(piece_bytes(r@) =~= spec_highlight(b, sp));
        }
    } else {
        assert(piece_bytes(r@) =~= spec_highlight(b, sp));
    }
    r
}

} // verus!
