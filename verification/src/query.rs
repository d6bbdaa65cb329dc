//! Query construction: turns the tag metadata of a local file into the
//! free-text query sent to the catalog's search endpoint.
//!
//! A record yields a query exactly when both its title and its artist are
//! present; the query text is `"{title} - {artist}"`, casing and whitespace
//! preserved. A record missing either field is silently dropped.

use vstd::prelude::*;

verus! {

/// The tag fields of one local audio file that the pipeline reads.
pub struct MetadataRecord {
    pub title: Option<String>,
    pub artist: Option<String>,
}

/// A free-text search query for the catalog.
pub struct SearchQuery(pub String);

impl View for SearchQuery {
    type V = Seq<char>;

    open spec fn view(&self) -> Seq<char> {
        self.0@
    }
}

impl Clone for SearchQuery {
    fn clone(&self) -> (r: Self)
        ensures
            r == *self,
    {
        SearchQuery(self.0.clone())
    }
}

/// A record yields a query exactly when both fields are present.
pub open spec fn has_both_fields(rec: MetadataRecord) -> bool {
    rec.title is Some && rec.artist is Some
}

/// The query text for a title and an artist: `"{title} - {artist}"`.
pub open spec fn query_text(title: Seq<char>, artist: Seq<char>) -> Seq<char> {
    title + " - "@ + artist
}

/// The queries that a sequence of records yields, in input order, records
/// missing a title or an artist dropped.
pub open spec fn queries_of(recs: Seq<MetadataRecord>) -> Seq<Seq<char>>
    decreases recs.len(),
{
    if recs.len() == 0 {
        Seq::empty()
    } else {
        let rest = queries_of(recs.drop_last());
        let last = recs.last();
        if has_both_fields(last) {
            rest.push(query_text(last.title->0@, last.artist->0@))
        } else {
            rest
        }
    }
}

impl SearchQuery {
    /// The query for one record, or nothing when its title or artist is missing.
    pub fn try_from(rec: &MetadataRecord) -> (r: Option<SearchQuery>)
        ensures
            r is Some <==> has_both_fields(*rec),
            r is Some ==> r->0@ == query_text(rec.title->0@, rec.artist->0@),
    {
        match (&rec.title, &rec.artist) {
            (Some(title), Some(artist)) => {
                let text = String::from_str(title.as_str()).concat(" - ").concat(artist.as_str());
                Some(SearchQuery(text))
            },
            _ => None,
        }
    }
}

/// Builds the query for every record that has both a title and an artist,
/// in input order; the others yield nothing.
pub fn build_queries(records: &Vec<MetadataRecord>) -> (queries: Vec<SearchQuery>)
    ensures
        queries@.map_values(|q: SearchQuery| q@) == queries_of(records@),
{
    let mut queries: Vec<SearchQuery> = Vec::new();
    let mut i: usize = 0;
    proof {
        assert(queries@.map_values(|q: SearchQuery| q@) =~= queries_of(records@.take(0)));
    }
    while i < records.len()
        invariant
            i <= records@.len(),
            queries@.map_values(|q: SearchQuery| q@) == queries_of(records@.take(i as int)),
        decreases records@.len() - i,
    {
        let ghost prefix = records@.take(i as int);
        if let Some(q) = SearchQuery::try_from(&records[i]) {
            let ghost text = q@;
            let ghost built = queries@;
            queries.push(q);
            proof {
                assert(queries@.map_values(|q: SearchQuery| q@) =~= built.map_values(
                    |q: SearchQuery| q@,
                ).push(text));
            }
        }
        i += 1;
        proof {
            assert(records@.take(i as int).drop_last() =~= prefix);
            assert(records@.take(i as int).last() == records@[i - 1]);
        }
    }
    proof {
        assert(records@.take(records@.len() as int) =~= records@);
    }
    queries
}

/// Law: a record missing its title or its artist yields no query.
pub proof fn lemma_missing_field_excluded(recs: Seq<MetadataRecord>, rec: MetadataRecord)
    requires
        !has_both_fields(rec),
    ensures
        queries_of(recs.push(rec)) == queries_of(recs),
{
    assert(recs.push(rec).drop_last() =~= recs);
}

/// Law: a record with both fields present yields exactly the query
/// `"{title} - {artist}"`, appended after the queries of the records before it.
pub proof fn lemma_complete_record_included(recs: Seq<MetadataRecord>, rec: MetadataRecord)
    requires
        has_both_fields(rec),
    ensures
        queries_of(recs.push(rec)) == queries_of(recs).push(
            query_text(rec.title->0@, rec.artist->0@),
        ),
{
    assert(recs.push(rec).drop_last() =~= recs);
}

} // verus!
