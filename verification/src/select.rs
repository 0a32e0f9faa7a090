//! Verified fuzzy selection: narrows the discovered note files by a
//! user-supplied pattern, keeping discovery order, with the scoring itself
//! delegated to the fuzzy-matcher crate.

use vstd::prelude::*;
use crate::discover::views_of;

verus! {

/// The score that the skim fuzzy-matching algorithm (with its default
/// configuration) assigns to `pattern` against `choice`: `Some` when the
/// matcher finds a subsequence alignment of the pattern in the choice
/// (under its own case-matching rules), `None` otherwise.
pub uninterp spec fn skim_score(choice: Seq<char>, pattern: Seq<char>) -> Option<i64>;

/// Whether a candidate passes the fuzzy match against a pattern.
pub open spec fn pattern_matches(choice: Seq<char>, pattern: Seq<char>) -> bool {
    skim_score(choice, pattern) is Some
}

/// Relies on fuzzy_matcher's `SkimMatcherV2::fuzzy_match` with the default
/// configuration: the score depends on the two strings alone, and an empty
/// pattern matches every choice with score zero.
#[verifier::external_body]
fn skim_match(choice: &str, pattern: &str) -> (r: Option<i64>)
    ensures
        r == skim_score(choice@, pattern@),
        pattern@.len() == 0 ==> r == Some(0i64),
{
    fuzzy_matcher::FuzzyMatcher::fuzzy_match(
        &fuzzy_matcher::skim::SkimMatcherV2::default(),
        choice,
        pattern,
    )
}

/// The candidates that pass the fuzzy match, in their original order.
pub open spec fn selected(cs: Seq<Seq<char>>, pattern: Seq<char>) -> Seq<Seq<char>>
    decreases cs.len(),
{
    if cs.len() == 0 {
        Seq::empty()
    } else if pattern_matches(cs.last(), pattern) {
        selected(cs.drop_last(), pattern).push(cs.last())
    } else {
        selected(cs.drop_last(), pattern)
    }
}

/// Filters `candidates` down to those that fuzzily match `pattern`,
/// preserving their order. An empty pattern vacuously matches everything,
/// so it returns all candidates.
pub fn select(candidates: &Vec<String>, pattern: &String) -> (r: Vec<String>)
    ensures
        views_of(r@) == selected(views_of(candidates@), pattern@),
        pattern@.len() == 0 ==> views_of(r@) == views_of(candidates@),
{
    let ghost cs = views_of(candidates@);
    let mut result: Vec<String> = Vec::new();
    let mut i: usize = 0;
    proof {
        assert(views_of(result@) =~= Seq::<Seq<char>>::empty());
    }
    while i < candidates.len()
        invariant
            i <= candidates@.len(),
            cs == views_of(candidates@),
            views_of(result@) == selected(cs.take(i as int), pattern@),
            pattern@.len() == 0 ==> views_of(result@) == cs.take(i as int),
        decreases candidates@.len() - i,
    {
        let c: &String = &candidates[i];
        let score = skim_match(c.as_str(), pattern.as_str());
        proof {
            assert(cs.take(i + 1).drop_last() =~= cs.take(i as int));
            assert(cs.take(i + 1).last() == c@);
        }
        if score.is_some() {
            let ghost prev = result@;
            result.push(c.clone());
            proof {
                assert(views_of(result@) =~= views_of(prev).push(c@));
                assert(cs.take(i as int).push(c@) =~= cs.take(i + 1));
            }
        }
        i = i + 1;
    }
    proof {
        assert(cs.take(candidates@.len() as int) =~= cs);
    }
    result
}

/// Whether `sub` can be obtained from `full` by deleting elements, keeping
/// the relative order of the rest.
pub open spec fn is_subsequence_of<A>(sub: Seq<A>, full: Seq<A>) -> bool
    decreases full.len(),
{
    if sub.len() == 0 {
        true
    } else if full.len() == 0 {
        false
    } else {
        (sub.last() == full.last() && is_subsequence_of(sub.drop_last(), full.drop_last()))
            || is_subsequence_of(sub, full.drop_last())
    }
}

/// Selection is a stable filter: the matched candidates form a subsequence
/// of the candidate list, so their relative (discovery) order is preserved.
pub proof fn lemma_selected_is_subsequence(cs: Seq<Seq<char>>, pattern: Seq<char>)
    ensures
        is_subsequence_of(selected(cs, pattern), cs),
    decreases cs.len(),
{
    if cs.len() > 0 {
        lemma_selected_is_subsequence(cs.drop_last(), pattern);
        if pattern_matches(cs.last(), pattern) {
            let sub = selected(cs, pattern);
            assert(sub.last() == cs.last());
            assert(sub.drop_last() =~= selected(cs.drop_last(), pattern));
        }
    }
}

/// Every selected candidate is one of the original candidates: selection
/// never invents entries, it only narrows the discovered list.
pub proof fn lemma_selected_subset(cs: Seq<Seq<char>>, pattern: Seq<char>, x: Seq<char>)
    requires
        selected(cs, pattern).contains(x),
    ensures
        cs.contains(x),
    decreases cs.len(),
{
    if cs.len() > 0 {
        if selected(cs.drop_last(), pattern).contains(x) {
            lemma_selected_subset(cs.drop_last(), pattern, x);
            let i = choose|i: int| 0 <= i < cs.drop_last().len() && cs.drop_last()[i] == x;
            assert(cs[i] == x);
        } else {
            assert(pattern_matches(cs.last(), pattern) && x == cs.last());
            assert(cs[cs.len() - 1] == x);
        }
    }
}

} // verus!
