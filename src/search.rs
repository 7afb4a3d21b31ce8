use vstd::prelude::*;
use rayon::iter::{IntoParallelRefIterator, ParallelIterator};
use crate::airport::{matches_query, Airport};
use crate::text::{lower_of, to_lower};

verus! {

/// The records of `d` that match query `q`, in dataset order: the query is
/// lowercased first, so matching ignores case.
pub open spec fn search_result(d: Seq<Airport>, q: Seq<char>) -> Seq<Airport> {
    d.filter(|a: Airport| matches_query(a@, lower_of(q)))
}

/// The records that a sequence of references points to.
pub open spec fn targets(refs: Seq<&Airport>) -> Seq<Airport> {
    refs.map_values(|a: &Airport| *a)
}

/// Relies on rayon's `par_iter().filter(..).collect()` into a `Vec`: it keeps
/// exactly the items that the predicate accepts, and its collect appends the
/// partial results in the order of the input. The predicate is the verified
/// `Airport::matches`.
#[verifier::external_body]
fn par_filter_matching<'a>(airports: &'a Vec<Airport>, lowered: &str) -> (r: Vec<&'a Airport>)
    ensures
        targets(r@) == airports@.filter(|a: Airport| matches_query(a@, lowered@)),
{
    airports.par_iter().filter(|a| a.matches(lowered)).collect()
}

/// The records whose lowercase code or lowercase name contains `lowered`, in
/// dataset order. The filter may run in parallel; the order is kept.
pub fn search_lowered<'a>(airports: &'a Vec<Airport>, lowered: &str) -> (r: Vec<&'a Airport>)
    ensures
        targets(r@) == airports@.filter(|a: Airport| matches_query(a@, lowered@)),
{
    par_filter_matching(airports, lowered)
}

/// The records whose code or name contains the query, compared in lowercase,
/// in dataset order. The empty query matches every record.
pub fn search<'a>(airports: &'a Vec<Airport>, query: &str) -> (r: Vec<&'a Airport>)
    ensures
        targets(r@) == search_result(airports@, query@),
{
    let lowered = to_lower(query);
    search_lowered(airports, lowered.as_str())
}

/// `sub` is made of elements of `s` taken in increasing index order.
pub open spec fn is_subsequence_of<A>(sub: Seq<A>, s: Seq<A>) -> bool {
    exists|idx: Seq<int>|
        {
            &&& #[trigger] idx.len() == sub.len()
            &&& forall|k: int| 0 <= k < idx.len() ==> 0 <= #[trigger] idx[k] < s.len()
            &&& forall|k: int| 0 <= k < idx.len() ==> sub[k] == s[#[trigger] idx[k]]
            &&& forall|k: int, l: int| 0 <= k < l < idx.len() ==> #[trigger] idx[k] < #[trigger] idx[l]
        }
}

proof fn lemma_filter_is_subsequence<A>(s: Seq<A>, pred: spec_fn(A) -> bool)
    ensures
        is_subsequence_of(s.filter(pred), s),
    decreases s.len(),
{
    reveal(Seq::filter);
    if s.len() == 0 {
        let idx = Seq::<int>::empty();
        assert(idx.len() == s.filter(pred).len());
    } else {
        let rest = s.drop_last();
        lemma_filter_is_subsequence(rest, pred);
        let sub = rest.filter(pred);
        let idx = choose|idx: Seq<int>|
            {
                &&& #[trigger] idx.len() == sub.len()
                &&& forall|k: int| 0 <= k < idx.len() ==> 0 <= #[trigger] idx[k] < rest.len()
                &&& forall|k: int| 0 <= k < idx.len() ==> sub[k] == rest[#[trigger] idx[k]]
                &&& forall|k: int, l: int|
                    0 <= k < l < idx.len() ==> #[trigger] idx[k] < #[trigger] idx[l]
            };
        if pred(s.last()) {
            let idx2 = idx.push(s.len() - 1);
            assert(s.filter(pred) == sub.push(s.last()));
            assert(idx2.len() == s.filter(pred).len());
            assert forall|k: int| 0 <= k < idx2.len() implies s.filter(pred)[k] == s[#[trigger] idx2[k]] by {
                if k < idx.len() {
                    assert(idx2[k] == idx[k]);
                }
            }
        } else {
            assert(s.filter(pred) == sub);
            assert(idx.len() == s.filter(pred).len());
            assert forall|k: int| 0 <= k < idx.len() implies s.filter(pred)[k] == s[#[trigger] idx[k]] by {
                assert(rest[idx[k]] == s[idx[k]]);
            }
        }
    }
}

/// A search returns its matches in the order they have in the dataset: the
/// result is a subsequence of the dataset.
pub proof fn lemma_search_preserves_order(d: Seq<Airport>, q: Seq<char>)
    ensures
        is_subsequence_of(search_result(d, q), d),
{
    lemma_filter_is_subsequence(d, |a: Airport| matches_query(a@, lower_of(q)));
}

/// Search ignores case: two queries with the same lowercase form (such as
/// "kjfk" and "KJFK") select the same records.
pub proof fn lemma_search_ignores_case(d: Seq<Airport>, q1: Seq<char>, q2: Seq<char>)
    requires
        lower_of(q1) == lower_of(q2),
    ensures
        search_result(d, q1) == search_result(d, q2),
{
    assert((|a: Airport| matches_query(a@, lower_of(q1))) == (|a: Airport|
        matches_query(a@, lower_of(q2))));
}

} // verus!
