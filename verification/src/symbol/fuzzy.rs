//! Fuzzy symbol search with the skim algorithm of `fuzzy_matcher`: the
//! matching is `fuzzy_matcher`'s; ranking the hits is this module's.
use vstd::prelude::*;

use crate::models::Symbol;
use crate::sort::{insert_by, lemma_insert_by_at, sort_by};
use crate::text::chars_of;

verus! {

/// What `SkimMatcherV2::default().fuzzy_indices(choice, pattern)` returns:
/// the score and the matched character positions, or `None` when the
/// pattern does not occur in order in the choice.
pub uninterp spec fn skim_fuzzy_indices(choice: Seq<char>, pattern: Seq<char>) -> Option<(i64, Seq<usize>)>;

/// A matcher result as plain values.
pub open spec fn result_view(o: Option<(i64, Vec<usize>)>) -> Option<(i64, Seq<usize>)> {
    match o {
        Some((s, p)) => Some((s, p@)),
        None => None,
    }
}

/// Calls `fuzzy_matcher::FuzzyMatcher::fuzzy_indices` on a default
/// `fuzzy_matcher::skim::SkimMatcherV2` (smart case, default scores, no
/// element limit). The contract names the result as a function of the two
/// strings and states what the source shows for an empty pattern: a score
/// of 0 and no positions.
#[verifier::external_body]
fn skim_indices(choice: &str, pattern: &str) -> (r: Option<(i64, Vec<usize>)>)
    ensures
        result_view(r) == skim_fuzzy_indices(choice@, pattern@),
        pattern@.len() == 0 ==> result_view(r) == Some((0i64, Seq::<usize>::empty())),
{
    let matcher = fuzzy_matcher::skim::SkimMatcherV2::default();
    fuzzy_matcher::FuzzyMatcher::fuzzy_indices(&matcher, choice, pattern)
}

/// Result of a fuzzy match with score and matched character indices.
#[derive(Debug)]
pub struct FuzzyMatch {
    /// Index of the matched symbol in the searched list
    pub symbol_index: usize,
    /// Match quality score (higher is better)
    pub score: i64,
    /// Character indices that matched
    pub matched_indices: Vec<usize>,
}

/// A fuzzy match as plain values.
pub struct FuzzyMatchV {
    pub symbol_index: usize,
    pub score: i64,
    pub matched_indices: Seq<usize>,
}

impl View for FuzzyMatch {
    type V = FuzzyMatchV;

    open spec fn view(&self) -> FuzzyMatchV {
        FuzzyMatchV {
            symbol_index: self.symbol_index,
            score: self.score,
            matched_indices: self.matched_indices@,
        }
    }
}

pub open spec fn matches_view(v: Seq<FuzzyMatch>) -> Seq<FuzzyMatchV> {
    v.map_values(|m: FuzzyMatch| m@)
}

pub open spec fn results_view(v: Seq<Option<(i64, Vec<usize>)>>) -> Seq<Option<(i64, Seq<usize>)>> {
    v.map_values(|o: Option<(i64, Vec<usize>)>| result_view(o))
}

/// The hits among the first `n` results, each with its index.
pub open spec fn hits(rs: Seq<Option<(i64, Seq<usize>)>>, n: int) -> Seq<FuzzyMatchV>
    decreases n,
{
    if n <= 0 {
        Seq::empty()
    } else {
        match rs[n - 1] {
            Some((s, p)) => hits(rs, n - 1).push(
                FuzzyMatchV { symbol_index: (n - 1) as usize, score: s, matched_indices: p },
            ),
            None => hits(rs, n - 1),
        }
    }
}

/// Best score first; equal scores keep their index order.
pub open spec fn score_desc_key() -> spec_fn(FuzzyMatchV) -> int {
    |m: FuzzyMatchV| -(m.score as int)
}

/// The hits of `rs`, best first.
pub open spec fn ranked(rs: Seq<Option<(i64, Seq<usize>)>>) -> Seq<FuzzyMatchV> {
    sort_by(hits(rs, rs.len() as int), score_desc_key())
}

/// The matcher's result for each name.
pub open spec fn name_results(names: Seq<Seq<char>>, q: Seq<char>) -> Seq<Option<(i64, Seq<usize>)>> {
    names.map_values(|n: Seq<char>| skim_fuzzy_indices(n, q))
}

pub open spec fn symbol_names(s: Seq<Symbol>) -> Seq<Seq<char>> {
    s.map_values(|y: Symbol| y.name@)
}

pub open spec fn string_names(s: Seq<String>) -> Seq<Seq<char>> {
    s.map_values(|y: String| y@)
}

fn insert_by_score(v: &mut Vec<FuzzyMatch>, m: FuzzyMatch)
    ensures
        matches_view(final(v)@) == insert_by(matches_view(old(v)@), m@, score_desc_key()),
{
    let ghost s = matches_view(v@);
    let mut j = v.len();
    while j > 0 && v[j - 1].score < m.score
        invariant
            j <= v@.len(),
            s == matches_view(v@),
            forall|k: int| j <= k < s.len() ==> (score_desc_key())(#[trigger] s[k]) > (score_desc_key())(m@),
        decreases j,
    {
        j = j - 1;
    }
    proof {
        lemma_insert_by_at(s, m@, score_desc_key(), j as int);
    }
    let ghost mv = m@;
    v.insert(j, m);
    assert(matches_view(v@) =~= s.take(j as int).push(mv) + s.skip(j as int));
}

/// Turns the matcher's result for each candidate into the list of matches,
/// best score first (a stable sort: equal scores keep candidate order).
pub fn rank_matches(results: Vec<Option<(i64, Vec<usize>)>>) -> (r: Vec<FuzzyMatch>)
    ensures
        matches_view(r@) == ranked(results_view(results@)),
{
    let ghost rs = results_view(results@);
    let mut out: Vec<FuzzyMatch> = Vec::new();
    let items = results;
    let n = items.len();
    let mut i: usize = 0;
    while i < n
        invariant
            i <= n,
            n == items@.len(),
            rs == results_view(items@),
            matches_view(out@) == sort_by(hits(rs, i as int), score_desc_key()),
        decreases n - i,
    {
        let item = match &items[i] {
            Some((s, p)) => Some((*s, p.clone())),
            None => None,
        };
        match item {
            Some((s, p)) => {
                proof {
                    let pair = items@[i as int]->0;
                    assert(p@ =~= pair.1@);
                }
                let m = FuzzyMatch { symbol_index: i, score: s, matched_indices: p };
                proof {
                    assert(hits(rs, i + 1).drop_last() =~= hits(rs, i as int));
                }
                insert_by_score(&mut out, m);
            },
            None => {},
        }
        i = i + 1;
    }
    out
}

/// Fuzzy matcher for names, using the skim algorithm.
pub struct FuzzyMatcher;

impl FuzzyMatcher {
    /// Create a new fuzzy matcher with default settings.
    pub fn new() -> (r: Self) {
        FuzzyMatcher
    }

    /// Search symbol names with fuzzy matching; best matches first. An
    /// empty query matches nothing.
    pub fn search(&self, query: &str, symbols: &[Symbol]) -> (r: Vec<FuzzyMatch>)
        ensures
            query@.len() == 0 ==> r@.len() == 0,
            query@.len() > 0 ==> matches_view(r@) == ranked(name_results(symbol_names(symbols@), query@)),
    {
        if chars_of(query).len() == 0 {
            return Vec::new();
        }
        let mut results: Vec<Option<(i64, Vec<usize>)>> = Vec::new();
        let mut i: usize = 0;
        while i < symbols.len()
            invariant
                i <= symbols@.len(),
                results_view(results@) =~= name_results(symbol_names(symbols@), query@).take(i as int),
            decreases symbols.len() - i,
        {
            let ghost before = results@;
            let r = skim_indices(symbols[i].name.as_str(), query);
            results.push(r);
            assert(results_view(results@) =~= results_view(before).push(
                skim_fuzzy_indices(symbols@[i as int].name@, query@),
            ));
            i = i + 1;
        }
        assert(name_results(symbol_names(symbols@), query@).take(symbols@.len() as int) =~= name_results(
            symbol_names(symbols@),
            query@,
        ));
        rank_matches(results)
    }

    /// The match of one symbol's name (its index is reported as 0).
    pub fn match_symbol(&self, query: &str, symbol: &Symbol) -> (r: Option<FuzzyMatch>)
        ensures
            match skim_fuzzy_indices(symbol.name@, query@) {
                Some((s, p)) => r matches Some(m) && m@ == (FuzzyMatchV { symbol_index: 0, score: s, matched_indices: p }),
                None => r is None,
            },
    {
        match skim_indices(symbol.name.as_str(), query) {
            Some((score, indices)) => Some(FuzzyMatch { symbol_index: 0, score, matched_indices: indices }),
            None => None,
        }
    }

    /// Search strings with fuzzy matching; best matches first. An empty
    /// query matches nothing.
    pub fn search_strings(&self, query: &str, strings: &[String]) -> (r: Vec<FuzzyMatch>)
        ensures
            query@.len() == 0 ==> r@.len() == 0,
            query@.len() > 0 ==> matches_view(r@) == ranked(name_results(string_names(strings@), query@)),
    {
        if chars_of(query).len() == 0 {
            return Vec::new();
        }
        let mut results: Vec<Option<(i64, Vec<usize>)>> = Vec::new();
        let mut i: usize = 0;
        while i < strings.len()
            invariant
                i <= strings@.len(),
                results_view(results@) =~= name_results(string_names(strings@), query@).take(i as int),
            decreases strings.len() - i,
        {
            let ghost before = results@;
            let r = skim_indices(strings[i].as_str(), query);
            results.push(r);
            assert(results_view(results@) =~= results_view(before).push(
                skim_fuzzy_indices(strings@[i as int]@, query@),
            ));
            i = i + 1;
        }
        assert(name_results(string_names(strings@), query@).take(strings@.len() as int) =~= name_results(
            string_names(strings@),
            query@,
        ));
        rank_matches(results)
    }
}

impl Default for FuzzyMatcher {
    fn default() -> (r: Self) {
        Self::new()
    }
}

proof fn lemma_hits_are_results(rs: Seq<Option<(i64, Seq<usize>)>>, n: int)
    requires
        0 <= n <= rs.len(),
        rs.len() <= usize::MAX,
    ensures
        forall|k: int| #![trigger hits(rs, n)[k]] 0 <= k < hits(rs, n).len() ==> {
            &&& hits(rs, n)[k].symbol_index < n
            &&& rs[hits(rs, n)[k].symbol_index as int] == Some(
                (hits(rs, n)[k].score, hits(rs, n)[k].matched_indices),
            )
        },
    decreases n,
{
    if n > 0 {
        lemma_hits_are_results(rs, n - 1);
        let p = hits(rs, n - 1);
        assert forall|k: int| #![trigger hits(rs, n)[k]] 0 <= k < hits(rs, n).len() implies {
            &&& hits(rs, n)[k].symbol_index < n
            &&& rs[hits(rs, n)[k].symbol_index as int] == Some(
                (hits(rs, n)[k].score, hits(rs, n)[k].matched_indices),
            )
        } by {
            if k < p.len() {
                assert(hits(rs, n)[k] == p[k]);
            }
        }
    }
}

/// The ranking lists hits only, each with the score and positions the
/// matcher gave its candidate, best score first.
pub proof fn law_ranked_hits_best_first(rs: Seq<Option<(i64, Seq<usize>)>>)
    requires
        rs.len() <= usize::MAX,
    ensures
        forall|i: int, j: int| 0 <= i <= j < ranked(rs).len() ==> ranked(rs)[i].score >= ranked(rs)[j].score,
        forall|k: int| #![trigger ranked(rs)[k]] 0 <= k < ranked(rs).len() ==> {
            &&& ranked(rs)[k].symbol_index < rs.len()
            &&& rs[ranked(rs)[k].symbol_index as int] == Some(
                (ranked(rs)[k].score, ranked(rs)[k].matched_indices),
            )
        },
{
    broadcast use vstd::seq_lib::group_to_multiset_ensures;

    let h = hits(rs, rs.len() as int);
    crate::sort::lemma_sort_by_sorted(h, score_desc_key());
    lemma_hits_are_results(rs, rs.len() as int);
    let r = ranked(rs);
    assert forall|i: int, j: int| 0 <= i <= j < r.len() implies r[i].score >= r[j].score by {
        assert((score_desc_key())(r[i]) <= (score_desc_key())(r[j]));
    }
    assert forall|k: int| #![trigger r[k]] 0 <= k < r.len() implies {
        &&& r[k].symbol_index < rs.len()
        &&& rs[r[k].symbol_index as int] == Some((r[k].score, r[k].matched_indices))
    } by {
        assert(r.to_multiset().count(r[k]) > 0);
        assert(h.contains(r[k]));
        let m = choose|m: int| 0 <= m < h.len() && h[m] == r[k];
        assert(h[m] == r[k]);
    }
}

/// A hit's place among the candidates.
pub open spec fn candidate_key() -> spec_fn(FuzzyMatchV) -> int {
    |m: FuzzyMatchV| m.symbol_index as int
}

proof fn lemma_hits_increasing(rs: Seq<Option<(i64, Seq<usize>)>>, n: int)
    requires
        0 <= n <= rs.len(),
        rs.len() <= usize::MAX,
    ensures
        crate::sort::increasing_in(hits(rs, n), candidate_key()),
    decreases n,
{
    if n > 0 {
        lemma_hits_increasing(rs, n - 1);
        lemma_hits_are_results(rs, n - 1);
        let p = hits(rs, n - 1);
        let h = hits(rs, n);
        assert forall|i: int, j: int| 0 <= i < j < h.len() implies (candidate_key())(
            #[trigger] h[i],
        ) < (candidate_key())(#[trigger] h[j]) by {
            assert(h[i] == p[i]);
            if j < p.len() {
                assert(h[j] == p[j]);
            } else {
                assert(p[i].symbol_index < n - 1);
            }
        }
    }
}

/// The ranking is stable: hits with equal scores keep the candidates' order.
pub proof fn law_ranked_hits_keep_candidate_order(rs: Seq<Option<(i64, Seq<usize>)>>)
    requires
        rs.len() <= usize::MAX,
    ensures
        forall|i: int, j: int|
            0 <= i < j < ranked(rs).len() && #[trigger] ranked(rs)[i].score == #[trigger] ranked(
                rs,
            )[j].score ==> ranked(rs)[i].symbol_index < ranked(rs)[j].symbol_index,
{
    let h = hits(rs, rs.len() as int);
    lemma_hits_increasing(rs, rs.len() as int);
    crate::sort::lemma_sort_by_stable(h, score_desc_key(), candidate_key());
    let r = ranked(rs);
    assert forall|i: int, j: int| 0 <= i < j < r.len() && #[trigger] r[i].score == #[trigger] r[j].score implies r[i].symbol_index
        < r[j].symbol_index by {
        assert((score_desc_key())(r[i]) == (score_desc_key())(r[j]));
    }
}

} // verus!
