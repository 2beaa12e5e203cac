//! Fuzzy filtering of sidebar lists: items that match the typed filter, best
//! match first.
use vstd::prelude::*;
use fuzzy_matcher::FuzzyMatcher;

verus! {

/// The score of `pattern` against `choice` under the default skim matcher, or
/// `None` where the pattern does not match.
pub uninterp spec fn skim_score(choice: Seq<char>, pattern: Seq<char>) -> Option<i64>;

/// Calls `SkimMatcherV2::fuzzy_match` on a default matcher; its result is
/// named `skim_score`.
#[verifier::external_body]
fn fuzzy_score(choice: &str, pattern: &str) -> (r: Option<i64>)
    ensures
        r == skim_score(choice@, pattern@),
{
    fuzzy_matcher::skim::SkimMatcherV2::default().fuzzy_match(choice, pattern)
}

/// `out` with `x` placed before the first entry of lower score: entries of
/// equal score keep the order in which they came.
pub open spec fn insert_by_score(out: Seq<(i64, usize)>, x: (i64, usize)) -> Seq<(i64, usize)>
    decreases out.len(),
{
    if out.len() == 0 {
        seq![x]
    } else if out[0].0 < x.0 {
        seq![x] + out
    } else {
        seq![out[0]] + insert_by_score(out.drop_first(), x)
    }
}

/// The matching positions with their scores, highest score first and, among
/// equal scores, in list order (a stable sort by descending score).
pub open spec fn ranked(scores: Seq<Option<i64>>) -> Seq<(i64, usize)>
    decreases scores.len(),
{
    if scores.len() == 0 {
        Seq::empty()
    } else {
        let prev = ranked(scores.drop_last());
        match scores.last() {
            Some(s) => insert_by_score(prev, (s, (scores.len() - 1) as usize)),
            None => prev,
        }
    }
}

/// The positions that `filter_positions` returns for the given choices.
pub open spec fn spec_filter_positions(choices: Seq<Seq<char>>, filter: Seq<char>) -> Seq<usize> {
    if filter.len() == 0 {
        Seq::new(choices.len(), |i: int| i as usize)
    } else {
        ranked(choices.map_values(|c: Seq<char>| skim_score(c, filter))).map_values(
            |e: (i64, usize)| e.1,
        )
    }
}

proof fn lemma_insert_by_score(out: Seq<(i64, usize)>, x: (i64, usize), p: int)
    requires
        0 <= p <= out.len(),
        forall|j: int| 0 <= j < p ==> out[j].0 >= x.0,
        p < out.len() ==> out[p].0 < x.0,
    ensures
        insert_by_score(out, x) == out.insert(p, x),
    decreases out.len(),
{
    if out.len() == 0 {
        assert(out.insert(p, x) =~= seq![x]);
    } else if p == 0 {
        assert(out.insert(0, x) =~= seq![x] + out);
    } else {
        lemma_insert_by_score(out.drop_first(), x, p - 1);
        assert(out.insert(p, x) =~= seq![out[0]] + out.drop_first().insert(p - 1, x));
    }
}

/// The positions that match, given each choice's score: highest score first,
/// equal scores in list order; choices without a score are left out.
pub fn rank_positions(scores: &Vec<Option<i64>>) -> (r: Vec<usize>)
    ensures
        r@ == ranked(scores@).map_values(|e: (i64, usize)| e.1),
{
    let n = scores.len();
    let mut out: Vec<(i64, usize)> = Vec::new();
    let mut i: usize = 0;
    assert(scores@.take(0) =~= Seq::<Option<i64>>::empty());
    while i < n
        invariant
            n == scores@.len(),
            i <= n,
            out@ == ranked(scores@.take(i as int)),
        decreases n - i,
    {
        assert(scores@.take(i + 1).drop_last() =~= scores@.take(i as int));
        assert(scores@.take(i + 1).last() == scores@[i as int]);
        match scores[i] {
            Some(s) => {
                let mut p: usize = 0;
                while p < out.len() && out[p].0 >= s
                    invariant
                        p <= out@.len(),
                        forall|j: int| 0 <= j < p ==> out@[j].0 >= s,
                    decreases out@.len() - p,
                {
                    p = p + 1;
                }
                proof {
                    lemma_insert_by_score(out@, (s, i), p as int);
                }
                out.insert(p, (s, i));
            },
            None => {},
        }
        i = i + 1;
    }
    assert(scores@.take(n as int) =~= scores@);
    let mut result: Vec<usize> = Vec::new();
    let mut k: usize = 0;
    while k < out.len()
        invariant
            k <= out@.len(),
            result@ == out@.take(k as int).map_values(|e: (i64, usize)| e.1),
        decreases out@.len() - k,
    {
        result.push(out[k].1);
        assert(out@.take(k + 1).map_values(|e: (i64, usize)| e.1) =~= out@.take(k as int).map_values(|e: (i64, usize)| e.1).push(out@[k as int].1));
        k = k + 1;
    }
    assert(out@.take(out@.len() as int) =~= out@);
    result
}

/// The positions of `choices` that match `filter`, best match first; with an
/// empty filter, every position in order.
pub fn filter_positions(choices: &Vec<String>, filter: &str) -> (r: Vec<usize>)
    ensures
        r@ == spec_filter_positions(choices@.map_values(|c: String| c@), filter@),
{
    let n = choices.len();
    if filter.is_empty() {
        let mut all: Vec<usize> = Vec::new();
        let mut i: usize = 0;
        while i < n
            invariant
                n == choices@.len(),
                i <= n,
                all@ == Seq::new(i as nat, |k: int| k as usize),
            decreases n - i,
        {
            all.push(i);
            assert(all@ =~= Seq::new((i + 1) as nat, |k: int| k as usize));
            i = i + 1;
        }
        return all;
    }
    let ghost want = choices@.map_values(|c: String| c@).map_values(|c: Seq<char>| skim_score(c, filter@));
    let mut scores: Vec<Option<i64>> = Vec::new();
    let mut i: usize = 0;
    while i < n
        invariant
            n == choices@.len(),
            want == choices@.map_values(|c: String| c@).map_values(|c: Seq<char>| skim_score(c, filter@)),
            i <= n,
            scores@ == want.take(i as int),
        decreases n - i,
    {
        let score = fuzzy_score(choices[i].as_str(), filter);
        scores.push(score);
        assert(scores@ =~= want.take(i + 1));
        i = i + 1;
    }
    assert(want.take(n as int) =~= want);
    rank_positions(&scores)
}

} // verus!
