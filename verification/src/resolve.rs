//! Search resolution: records, for each query in turn, what the catalog's
//! search endpoint answered.
//!
//! Each query is sent once, asking for at most one result. Only the top
//! result is ever accepted; a failed request or an empty answer is a miss.
//! Resolved identifiers keep the order of the queries that matched; missed
//! queries are kept apart in a miss log and are never retried.

use vstd::prelude::*;
use crate::query::SearchQuery;

verus! {

/// An opaque, service-assigned identifier of a catalog track.
pub struct TrackId(pub String);

impl View for TrackId {
    type V = Seq<char>;

    open spec fn view(&self) -> Seq<char> {
        self.0@
    }
}

impl Clone for TrackId {
    fn clone(&self) -> (r: Self)
        ensures
            r == *self,
    {
        TrackId(self.0.clone())
    }
}

/// What one search call answered: the top result's identifier, or no match
/// (an empty answer and a failed request count the same).
pub enum SearchOutcome {
    Found(TrackId),
    NoMatch,
}

/// The resolved identifiers and the missed queries accumulated so far.
pub struct Resolution {
    pub resolved: Vec<TrackId>,
    pub misses: Vec<SearchQuery>,
}

/// The identifiers that a sequence of outcomes resolves to, in input order,
/// misses dropped.
pub open spec fn resolved_of(outcomes: Seq<SearchOutcome>) -> Seq<TrackId>
    decreases outcomes.len(),
{
    if outcomes.len() == 0 {
        Seq::empty()
    } else {
        let rest = resolved_of(outcomes.drop_last());
        match outcomes.last() {
            SearchOutcome::Found(id) => rest.push(id),
            SearchOutcome::NoMatch => rest,
        }
    }
}

/// The queries whose outcome was a miss, in input order, given one outcome
/// per query.
pub open spec fn misses_of(queries: Seq<SearchQuery>, outcomes: Seq<SearchOutcome>) -> Seq<
    SearchQuery,
>
    decreases outcomes.len(),
{
    if outcomes.len() == 0 || queries.len() != outcomes.len() {
        Seq::empty()
    } else {
        let rest = misses_of(queries.drop_last(), outcomes.drop_last());
        match outcomes.last() {
            SearchOutcome::Found(_) => rest,
            SearchOutcome::NoMatch => rest.push(queries.last()),
        }
    }
}

impl Resolution {
    /// An empty resolution: nothing resolved, nothing missed.
    pub fn new() -> (r: Resolution)
        ensures
            r.resolved@ == Seq::<TrackId>::empty(),
            r.misses@ == Seq::<SearchQuery>::empty(),
    {
        Resolution { resolved: Vec::new(), misses: Vec::new() }
    }

    /// Records one search outcome: a found identifier joins the resolved
    /// list, a miss puts the query in the miss log; nothing else moves.
    pub fn record_outcome(&mut self, query: SearchQuery, outcome: SearchOutcome)
        ensures
            match outcome {
                SearchOutcome::Found(id) => {
                    &&& final(self).resolved@ == old(self).resolved@.push(id)
                    &&& final(self).misses@ == old(self).misses@
                },
                SearchOutcome::NoMatch => {
                    &&& final(self).resolved@ == old(self).resolved@
                    &&& final(self).misses@ == old(self).misses@.push(query)
                },
            },
    {
        match outcome {
            SearchOutcome::Found(id) => self.resolved.push(id),
            SearchOutcome::NoMatch => self.misses.push(query),
        }
    }
}

/// Resolves a whole run: pairs each query with its search outcome and
/// returns the identifiers of the matches, in query order, beside the
/// queries that missed.
pub fn get_track_ids(queries: &Vec<SearchQuery>, outcomes: &Vec<SearchOutcome>) -> (r: Resolution)
    requires
        queries@.len() == outcomes@.len(),
    ensures
        r.resolved@ == resolved_of(outcomes@),
        r.misses@ == misses_of(queries@, outcomes@),
{
    let mut r = Resolution::new();
    let mut i: usize = 0;
    proof {
        assert(r.resolved@ =~= resolved_of(outcomes@.take(0)));
        assert(r.misses@ =~= misses_of(queries@.take(0), outcomes@.take(0)));
    }
    while i < outcomes.len()
        invariant
            i <= outcomes@.len(),
            queries@.len() == outcomes@.len(),
            r.resolved@ == resolved_of(outcomes@.take(i as int)),
            r.misses@ == misses_of(queries@.take(i as int), outcomes@.take(i as int)),
        decreases outcomes@.len() - i,
    {
        let ghost qs = queries@.take(i as int);
        let ghost os = outcomes@.take(i as int);
        let outcome = match &outcomes[i] {
            SearchOutcome::Found(id) => SearchOutcome::Found(id.clone()),
            SearchOutcome::NoMatch => SearchOutcome::NoMatch,
        };
        r.record_outcome(queries[i].clone(), outcome);
        i += 1;
        proof {
            assert(queries@.take(i as int).drop_last() =~= qs);
            assert(outcomes@.take(i as int).drop_last() =~= os);
            assert(queries@.take(i as int).last() == queries@[i - 1]);
            assert(outcomes@.take(i as int).last() == outcomes@[i - 1]);
        }
    }
    proof {
        assert(queries@.take(queries@.len() as int) =~= queries@);
        assert(outcomes@.take(outcomes@.len() as int) =~= outcomes@);
    }
    r
}

/// Law: every query is accounted for exactly once: the resolved identifiers
/// and the missed queries together number the queries sent.
pub proof fn lemma_every_query_accounted(queries: Seq<SearchQuery>, outcomes: Seq<SearchOutcome>)
    requires
        queries.len() == outcomes.len(),
    ensures
        resolved_of(outcomes).len() + misses_of(queries, outcomes).len() == outcomes.len(),
    decreases outcomes.len(),
{
    if outcomes.len() > 0 {
        lemma_every_query_accounted(queries.drop_last(), outcomes.drop_last());
    }
}

/// Law: a query whose search produced no match joins the miss log and adds
/// nothing to the resolved list.
pub proof fn lemma_miss_logged(
    queries: Seq<SearchQuery>,
    outcomes: Seq<SearchOutcome>,
    query: SearchQuery,
)
    requires
        queries.len() == outcomes.len(),
    ensures
        misses_of(queries.push(query), outcomes.push(SearchOutcome::NoMatch)) == misses_of(
            queries,
            outcomes,
        ).push(query),
        resolved_of(outcomes.push(SearchOutcome::NoMatch)) == resolved_of(outcomes),
{
    assert(queries.push(query).drop_last() =~= queries);
    assert(outcomes.push(SearchOutcome::NoMatch).drop_last() =~= outcomes);
}

/// Law: a query whose search answered with a top result appends exactly that
/// identifier to the resolved list and nothing to the miss log.
pub proof fn lemma_match_resolved(
    queries: Seq<SearchQuery>,
    outcomes: Seq<SearchOutcome>,
    query: SearchQuery,
    id: TrackId,
)
    requires
        queries.len() == outcomes.len(),
    ensures
        resolved_of(outcomes.push(SearchOutcome::Found(id))) == resolved_of(outcomes).push(id),
        misses_of(queries.push(query), outcomes.push(SearchOutcome::Found(id))) == misses_of(
            queries,
            outcomes,
        ),
{
    assert(queries.push(query).drop_last() =~= queries);
    assert(outcomes.push(SearchOutcome::Found(id)).drop_last() =~= outcomes);
}

} // verus!
