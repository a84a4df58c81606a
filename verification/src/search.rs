//! The search path: a free-text query is embedded by the caller (the same
//! embedding service the sweep uses), and the store answers with the `id`
//! of the single nearest stored record.

use vstd::prelude::*;

use crate::embedding::Embedding;
use crate::embedding::dist_sq;
use crate::ship::ShipView;
use crate::store::Store;

verus! {

/// Why a search produced no identifier.
#[derive(Clone, Copy, Debug, PartialEq, Eq, Structural)]
pub enum SearchError {
    /// No stored record carries an embedding, so there is nothing to rank.
    NoMatch,
    /// The embedding service failed on the query text.
    Upstream,
}

/// Some stored row carries an embedding.
pub open spec fn any_embedded(rows: Seq<ShipView>) -> bool {
    exists|i: int| 0 <= i < rows.len() && (#[trigger] rows[i]).embedding is Some
}

/// Answers a query from the store, given the outcome of embedding the
/// query text: `None` means the embedding call failed. Returns the `id` of
/// a stored record at minimal squared Euclidean distance from the query
/// vector among the rows that carry an embedding; `NoMatch` exactly when
/// no row carries one, `Upstream` exactly when the embedding call failed.
pub fn search(store: &Store, query_embedding: Option<Embedding>) -> (r: Result<String, SearchError>)
    requires
        store.wf(),
        match query_embedding {
            Some(q) => q.wf(),
            None => true,
        },
    ensures
        query_embedding is None <==> r == Err::<String, SearchError>(SearchError::Upstream),
        query_embedding is Some && !any_embedded(store@) ==> r == Err::<String, SearchError>(
            SearchError::NoMatch,
        ),
        query_embedding is Some && any_embedded(store@) ==> r is Ok,
        r is Ok ==> {
            let q = query_embedding->0;
            exists|i: int|
                {
                    &&& 0 <= i < store@.len()
                    &&& (#[trigger] store@[i]).embedding is Some
                    &&& store@[i].id == r->Ok_0@
                    &&& forall|j: int|
                        0 <= j < store@.len() && (#[trigger] store@[j]).embedding is Some
                            ==> dist_sq(q@, store@[i].embedding->0) <= dist_sq(
                            q@,
                            store@[j].embedding->0,
                        )
                }
        },
{
    let q = match query_embedding {
        Some(q) => q,
        None => {
            return Err(SearchError::Upstream);
        },
    };
    match store.nearest(&q) {
        Some(s) => {
            proof {
                let sv = s@;
                let i = choose|i: int| 0 <= i < store@.len() && #[trigger] store@[i] == sv;
                assert(0 <= i < store@.len() && store@[i] == sv);
            }
            Ok(s.id.clone())
        },
        None => Err(SearchError::NoMatch),
    }
}

} // verus!
