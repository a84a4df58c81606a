//! The sweep state machine. A sweep walks the whole origin dataset page by
//! page: each tick fetches one page, extracts every record, attaches
//! embeddings where owed, and upserts the batch in fetch order. A batch
//! below the fixed page size marks the last page: the sweep ends, the end
//! total is reported, and the cursor resets to the initial state so the
//! next tick starts the dataset over.
//!
//! The fetch itself and the embedding calls are network work done by the
//! caller; everything decided about their results is here and verified.

use vstd::prelude::*;

use crate::embedding::Embedding;
use crate::raw::RawValue;
use crate::ship::ExtractionError;
use crate::ship::Ship;
use crate::ship::ShipView;
use crate::ship::extracted;
use crate::ship::spec_id;
use crate::store::Store;
use crate::store::spec_upsert;

verus! {

/// A full page holds exactly this many records; a smaller batch signals
/// the last page of a sweep.
pub const PAGE_SIZE: usize = 100;

/// Every record of the batch upserted in order, oldest position first.
pub open spec fn spec_upsert_all(rows: Seq<ShipView>, batch: Seq<ShipView>) -> Seq<ShipView>
    decreases batch.len(),
{
    if batch.len() == 0 {
        rows
    } else {
        spec_upsert(spec_upsert_all(rows, batch.drop_last()), batch.last())
    }
}

/// The cursor rule: a short batch ends the sweep and resets the cursor to
/// the initial state; a full batch hands the fetched continuation token on
/// verbatim.
pub open spec fn next_cursor(batch_len: nat, fetched: Option<Seq<char>>) -> Option<Seq<char>> {
    if batch_len < PAGE_SIZE {
        None
    } else {
        fetched
    }
}

/// The cursor after feeding a whole run of fetched pages, in order, into
/// the cursor rule; each page is its batch size and its continuation
/// token.
pub open spec fn run_sweep(
    start: Option<Seq<char>>,
    pages: Seq<(nat, Option<Seq<char>>)>,
) -> Option<Seq<char>>
    decreases pages.len(),
{
    if pages.len() == 0 {
        start
    } else {
        run_sweep(next_cursor(pages.first().0, pages.first().1), pages.drop_first())
    }
}

/// A sweep of any number of full pages followed by one short page
/// terminates: after the short page the cursor is back in the initial
/// state, whatever tokens the full pages carried and wherever the sweep
/// started.
pub proof fn lemma_sweep_terminates(start: Option<Seq<char>>, pages: Seq<(nat, Option<Seq<char>>)>)
    requires
        pages.len() > 0,
        forall|i: int| 0 <= i < pages.len() - 1 ==> (#[trigger] pages[i]).0 == PAGE_SIZE,
        pages.last().0 < PAGE_SIZE,
    ensures
        run_sweep(start, pages) == None::<Seq<char>>,
    decreases pages.len(),
{
    if pages.len() == 1 {
        assert(run_sweep(start, pages) == next_cursor(pages[0].0, pages[0].1));
    } else {
        let rest = pages.drop_first();
        assert(rest.last() == pages.last());
        assert(forall|i: int| 0 <= i < rest.len() - 1 ==> (#[trigger] rest[i]).0 == PAGE_SIZE);
        lemma_sweep_terminates(next_cursor(pages.first().0, pages.first().1), rest);
    }
}

/// Completes one freshly extracted record for upsert, given the outcome
/// of the embedding step for it: `embedding` holds the vector computed
/// from the record's description, or nothing when the embedding call
/// failed or was never owed. The finished record carries an embedding
/// exactly when its description is non-empty; a vector handed in for a
/// record without a description is discarded rather than stored stale.
/// Yields nothing exactly when the record is owed an embedding but got
/// none, which aborts the tick so the identical work is retried next
/// sweep.
pub fn finish_record(ship: Ship, embedding: Option<Embedding>) -> (r: Option<Ship>)
    requires
        ship@.embedding is None,
        match embedding {
            Some(e) => e.wf(),
            None => true,
        },
    ensures
        r is Some <==> (ship@.has_description() ==> embedding is Some),
        r is Some ==> r->0@ == if ship@.has_description() {
            ship@.with_embedding(embedding->0@)
        } else {
            ship@
        },
        r is Some ==> (r->0@.embedding is Some <==> r->0@.has_description()),
        r is Some ==> r->0@.wf(),
{
    if ship.needs_embedding() {
        match embedding {
            Some(e) => Some(ship.with_embedding(e)),
            None => None,
        }
    } else {
        Some(ship)
    }
}

/// Extracts every record of one fetched batch, in order. The whole batch
/// fails on the first record without a usable `id`: one bad record aborts
/// the tick, and the identical work is simply retried when the sweep next
/// reaches the same page.
pub fn extract_batch(raws: &Vec<RawValue>) -> (r: Result<Vec<Ship>, ExtractionError>)
    ensures
        r is Ok <==> (forall|i: int| 0 <= i < raws@.len() ==> spec_id(#[trigger] raws@[i]) is Some),
        r is Ok ==> {
            let ships = r->Ok_0.deep_view();
            &&& ships.len() == raws@.len()
            &&& forall|i: int| 0 <= i < raws@.len() ==> ships[i] == extracted(#[trigger] raws@[i])
            &&& forall|i: int| 0 <= i < ships.len() ==> (#[trigger] ships[i]).wf()
        },
        r is Err ==> r->Err_0 == ExtractionError::MissingId,
{
    let n: usize = raws.len();
    let mut ships: Vec<Ship> = Vec::new();
    let mut i: usize = 0;
    while i < n
        invariant
            n == raws@.len(),
            i <= n,
            ships.deep_view().len() == i,
            forall|j: int|
                0 <= j < i ==> spec_id(#[trigger] raws@[j]) is Some && ships.deep_view()[j]
                    == extracted(raws@[j]),
            forall|j: int| 0 <= j < i ==> (#[trigger] ships.deep_view()[j]).wf(),
        decreases n - i,
    {
        let ghost prev = ships.deep_view();
        match crate::ship::extract(&raws[i]) {
            Ok(ship) => {
                let ghost shipv = ship@;
                ships.push(ship);
                proof {
                    assert(ships.deep_view() =~= prev.push(shipv));
                }
            },
            Err(e) => {
                return Err(e);
            },
        }
        i = i + 1;
    }
    Ok(ships)
}

/// Applies one fetched page to the store: upserts every ship in fetch
/// order, then decides how the sweep goes on. Returns the cursor for the
/// next tick and, when this batch was the last page of the sweep, the
/// store's total row count to report.
pub fn apply_page(store: &mut Store, ships: &Vec<Ship>, fetched_cursor: Option<String>) -> (r: (
    Option<String>,
    Option<usize>,
))
    requires
        old(store).wf(),
        forall|i: int| 0 <= i < ships.deep_view().len() ==> (#[trigger] ships.deep_view()[i]).wf(),
    ensures
        final(store)@ == spec_upsert_all(old(store)@, ships.deep_view()),
        final(store).wf(),
        r.0.deep_view() == next_cursor(ships.deep_view().len(), fetched_cursor.deep_view()),
        r.1 is Some <==> ships.deep_view().len() < PAGE_SIZE,
        r.1 is Some ==> r.1->0 == final(store)@.len(),
{
    let n: usize = ships.len();
    let mut i: usize = 0;
    while i < n
        invariant
            n == ships.deep_view().len(),
            i <= n,
            forall|k: int|
                0 <= k < ships.deep_view().len() ==> (#[trigger] ships.deep_view()[k]).wf(),
            store@ == spec_upsert_all(old(store)@, ships.deep_view().take(i as int)),
            store.wf(),
        decreases n - i,
    {
        let ship = ships[i].clone();
        proof {
            assert(ships.deep_view()[i as int].wf());
            assert(ship@ == ships.deep_view()[i as int]);
        }
        store.upsert(ship);
        proof {
            let all = ships.deep_view();
            assert(all.take(i + 1).drop_last() =~= all.take(i as int));
            assert(all.take(i + 1).last() == all[i as int]);
        }
        i = i + 1;
    }
    proof {
        assert(ships.deep_view().take(n as int) =~= ships.deep_view());
    }
    if n < PAGE_SIZE {
        let total = store.count();
        (None, Some(total))
    } else {
        (fetched_cursor, None)
    }
}

} // verus!
