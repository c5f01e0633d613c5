use vstd::prelude::*;
use crate::meal::{Meal, MealView};
use crate::state::State;
use crate::store::views_of;

verus! {

/// What SkimMatcherV2::fuzzy_match returns for a candidate and a pattern: a
/// function of the two strings alone.
pub uninterp spec fn fuzzy_score_of(choice: Seq<char>, pattern: Seq<char>) -> Option<i64>;

/// Relies on fuzzy_matcher::skim::SkimMatcherV2::fuzzy_match with the default
/// settings: the score depends on the candidate and the pattern alone.
#[verifier::external_body]
fn fuzzy_match(choice: &str, pattern: &str) -> (r: Option<i64>)
    ensures
        r == fuzzy_score_of(choice@, pattern@),
{
    fuzzy_matcher::FuzzyMatcher::fuzzy_match(
        &fuzzy_matcher::skim::SkimMatcherV2::default(),
        choice,
        pattern,
    )
}

/// Whether a meal answers an inline query: everything matches the empty
/// query; otherwise the fuzzy matcher must find the pattern in the name.
pub open spec fn query_hits(m: MealView, query: Seq<char>) -> bool {
    query.len() == 0 || fuzzy_score_of(m.name, query) is Some
}

/// The catalogued meals that answer an inline query, in catalogue order.
pub fn matching_meals(state: &State, query: &String) -> (r: Vec<Meal>)
    ensures
        views_of(r@) == state.meals@.filter(|m: MealView| query_hits(m, query@)),
{
    let all = state.meals.all();
    let n = all.len();
    let mut out: Vec<Meal> = Vec::new();
    let mut i: usize = 0;
    proof {
        reveal(Seq::filter);
        assert(views_of(out@) =~= state.meals@.take(0).filter(
            |m: MealView| query_hits(m, query@),
        ));
    }
    while i < n
        invariant
            0 <= i <= n,
            n == state.meals@.len(),
            views_of(all@) == state.meals@,
            views_of(out@) == state.meals@.take(i as int).filter(
                |m: MealView| query_hits(m, query@),
            ),
        decreases n - i,
    {
        proof {
            reveal(Seq::filter);
            assert(all@[i as int]@ == state.meals@[i as int]);
            assert(state.meals@.take(i as int + 1).drop_last() =~= state.meals@.take(i as int));
            assert(state.meals@.take(i as int + 1).last() == state.meals@[i as int]);
        }
        let hit = if query.as_str().unicode_len() == 0 {
            true
        } else {
            match fuzzy_match(all[i].name.as_str(), query.as_str()) {
                Some(_) => true,
                None => false,
            }
        };
        if hit {
            let ghost prevv = out@;
            let m = crate::store::HasId::duplicate(&all[i]);
            out.push(m);
            proof {
                crate::store::lemma_views_push(prevv, out@.last());
                assert(out@ =~= prevv.push(out@.last()));
                assert(views_of(out@) =~= state.meals@.take(i as int + 1).filter(
                    |m: MealView| query_hits(m, query@),
                ));
            }
        } else {
            proof {
                assert(views_of(out@) =~= state.meals@.take(i as int + 1).filter(
                    |m: MealView| query_hits(m, query@),
                ));
            }
        }
        i = i + 1;
    }
    proof {
        assert(state.meals@.take(n as int) =~= state.meals@);
    }
    out
}

} // verus!
