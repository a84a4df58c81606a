//! The store of synchronized ships: one row per `id`, written only through
//! an insert-or-replace keyed by `id`, read back as an ordered listing or
//! through nearest-neighbor search over the stored embeddings.
//!
//! Replaying a sweep is safe because the upsert is idempotent, and a later
//! sweep wins wholesale: both laws are stated and proved below over the
//! store's mathematical value.

use vstd::prelude::*;

use vstd::seq_lib::group_to_multiset_ensures;

use crate::embedding::EMBEDDING_DIM;
use crate::embedding::Embedding;
use crate::embedding::dist_sq;
use crate::ship::Ship;
use crate::ship::ShipView;
use crate::text::str_eq;

verus! {

/// No two rows share an `id`.
pub open spec fn ids_unique(rows: Seq<ShipView>) -> bool {
    forall|i: int, j: int|
        0 <= i < rows.len() && 0 <= j < rows.len() && i != j ==> #[trigger] rows[i].id
            != #[trigger] rows[j].id
}

/// Every row satisfies the stored-record invariant.
pub open spec fn all_wf(rows: Seq<ShipView>) -> bool {
    forall|i: int| 0 <= i < rows.len() ==> (#[trigger] rows[i]).wf()
}

/// Some row carries this `id`.
pub open spec fn has_id(rows: Seq<ShipView>, id: Seq<char>) -> bool {
    exists|i: int| 0 <= i < rows.len() && (#[trigger] rows[i]).id == id
}

/// The index of the row carrying `id`; meaningful when `has_id` holds and
/// the ids are unique.
pub open spec fn id_index(rows: Seq<ShipView>, id: Seq<char>) -> int {
    choose|i: int| 0 <= i < rows.len() && (#[trigger] rows[i]).id == id
}

/// Insert-or-replace keyed by `id`: a row with the same `id` is replaced
/// wholesale (every field overwritten, no merge); otherwise the record is
/// appended.
pub open spec fn spec_upsert(rows: Seq<ShipView>, s: ShipView) -> Seq<ShipView> {
    if has_id(rows, s.id) {
        rows.update(id_index(rows, s.id), s)
    } else {
        rows.push(s)
    }
}

pub proof fn lemma_id_index(rows: Seq<ShipView>, id: Seq<char>)
    requires
        has_id(rows, id),
    ensures
        0 <= id_index(rows, id) < rows.len(),
        rows[id_index(rows, id)].id == id,
{
    let i = choose|i: int| 0 <= i < rows.len() && (#[trigger] rows[i]).id == id;
    assert(0 <= i < rows.len() && rows[i].id == id);
}

/// Syncing the same record again leaves the store exactly as one sync left
/// it: the upsert is idempotent.
pub proof fn lemma_upsert_idempotent(rows: Seq<ShipView>, s: ShipView)
    requires
        ids_unique(rows),
    ensures
        spec_upsert(spec_upsert(rows, s), s) == spec_upsert(rows, s),
{
    lemma_upsert_last_write_wins(rows, s, s);
}

/// Syncing a record and later syncing another record with the same `id`
/// leaves the store exactly as if only the later one had been synced: the
/// last write wins wholesale, nothing of the earlier record survives.
pub proof fn lemma_upsert_last_write_wins(rows: Seq<ShipView>, s1: ShipView, s2: ShipView)
    requires
        ids_unique(rows),
        s1.id == s2.id,
    ensures
        spec_upsert(spec_upsert(rows, s1), s2) == spec_upsert(rows, s2),
{
    let r1 = spec_upsert(rows, s1);
    if has_id(rows, s1.id) {
        lemma_id_index(rows, s1.id);
        let i = id_index(rows, s1.id);
        assert(r1 == rows.update(i, s1));
        assert(r1[i].id == s2.id);
        assert(has_id(r1, s2.id));
        lemma_id_index(r1, s2.id);
        let j = id_index(r1, s2.id);
        if j != i {
            assert(r1[j] == rows[j]);
            assert(rows[j].id == rows[i].id);
            assert(false);
        }
        assert(has_id(rows, s2.id));
        lemma_id_index(rows, s2.id);
        let k = id_index(rows, s2.id);
        if k != i {
            assert(rows[k].id == rows[i].id);
            assert(false);
        }
        assert(spec_upsert(r1, s2) =~= spec_upsert(rows, s2));
    } else {
        let len = rows.len() as int;
        assert(r1 == rows.push(s1));
        assert(r1[len].id == s2.id);
        assert(has_id(r1, s2.id));
        lemma_id_index(r1, s2.id);
        let j = id_index(r1, s2.id);
        if j != len {
            assert(r1[j] == rows[j]);
            assert(has_id(rows, s1.id));
            assert(false);
        }
        assert(!has_id(rows, s2.id));
        assert(spec_upsert(r1, s2) =~= rows.push(s2));
    }
}

/// Sort key for the listing: the approval date's key, with dateless rows
/// after every dated one (ascending order, nulls last).
pub open spec fn date_key_of(s: ShipView) -> int {
    match s.approved_at {
        Some(d) => d.key(),
        None => 100000000,
    }
}

/// The rows are in ascending approval-date order, dateless rows last.
pub open spec fn sorted_by_date(rows: Seq<ShipView>) -> bool {
    forall|i: int, j: int|
        0 <= i < j < rows.len() ==> #[trigger] date_key_of(rows[i]) <= #[trigger] date_key_of(
            rows[j],
        )
}

proof fn lemma_insert_to_multiset(s: Seq<ShipView>, p: int, x: ShipView)
    requires
        0 <= p <= s.len(),
    ensures
        s.insert(p, x).to_multiset() == s.to_multiset().insert(x),
{
    broadcast use group_to_multiset_ensures;

    let t = s.insert(p, x);
    assert(t.remove(p) =~= s);
    assert(t[p] == x);
    assert(t.remove(p).to_multiset() =~= t.to_multiset().remove(x));
    assert(t.to_multiset().contains(x));
    assert(t.to_multiset() =~= s.to_multiset().insert(x)) by {
        assert(forall|y: ShipView|
            #[trigger] t.to_multiset().count(y) == s.to_multiset().insert(x).count(y)) by {
            assert(forall|y: ShipView|
                y != x ==> #[trigger] t.to_multiset().remove(x).count(y) == t.to_multiset().count(
                    y,
                ));
            assert(t.to_multiset().count(x) >= 1);
        }
    }
}

/// The stored table: one row per ship, reachable only through the
/// operations below, which keep the ids unique and every row well formed.
pub struct Store {
    rows: Vec<Ship>,
}

impl View for Store {
    type V = Seq<ShipView>;

    closed spec fn view(&self) -> Seq<ShipView> {
        self.rows.deep_view()
    }
}

fn find_row(rows: &Vec<Ship>, id: &str) -> (r: Option<usize>)
    ensures
        match r {
            Some(i) => 0 <= i < rows.deep_view().len() && rows.deep_view()[i as int].id == id@,
            None => !has_id(rows.deep_view(), id@),
        },
{
    let n: usize = rows.len();
    let mut i: usize = 0;
    while i < n
        invariant
            n == rows.deep_view().len(),
            i <= n,
            forall|j: int| 0 <= j < i ==> (#[trigger] rows.deep_view()[j]).id != id@,
        decreases n - i,
    {
        if str_eq(rows[i].id.as_str(), id) {
            return Some(i);
        }
        i = i + 1;
    }
    None
}

impl Store {
    /// The store invariant: unique ids, well-formed rows.
    pub open spec fn wf(self) -> bool {
        ids_unique(self@) && all_wf(self@)
    }

    /// An empty store.
    pub fn new() -> (r: Store)
        ensures
            r@ == Seq::<ShipView>::empty(),
            r.wf(),
    {
        Store { rows: Vec::new() }
    }

    /// Total row count, reported at the end of each sweep.
    pub fn count(&self) -> (r: usize)
        ensures
            r == self@.len(),
    {
        self.rows.len()
    }

    /// Insert-or-replace keyed by `id`. A row with the same `id` has every
    /// field overwritten by the new record; otherwise the record is
    /// appended. Nothing is ever deleted.
    pub fn upsert(&mut self, ship: Ship)
        requires
            old(self).wf(),
            ship@.wf(),
        ensures
            final(self)@ == spec_upsert(old(self)@, ship@),
            final(self).wf(),
    {
        let found = find_row(&self.rows, ship.id.as_str());
        match found {
            Some(i) => {
                self.rows.set(i, ship);
                proof {
                    let rows = old(self)@;
                    let idv = ship@.id;
                    assert(rows[i as int].id == idv);
                    assert(has_id(rows, idv));
                    lemma_id_index(rows, idv);
                    let j = id_index(rows, idv);
                    if j != i as int {
                        assert(rows[j].id == rows[i as int].id);
                        assert(false);
                    }
                    assert(self@ =~= rows.update(i as int, ship@));
                    assert(forall|k: int|
                        0 <= k < self@.len() ==> (#[trigger] self@[k]).id == rows[k].id);
                    assert(ids_unique(self@));
                    assert(all_wf(self@));
                }
            },
            None => {
                self.rows.push(ship);
                proof {
                    let rows = old(self)@;
                    assert(self@ =~= rows.push(ship@));
                    assert(forall|k: int| 0 <= k < rows.len() ==> self@[k] == rows[k]);
                    assert(ids_unique(self@));
                    assert(all_wf(self@));
                }
            },
        }
    }

    /// The single stored record whose embedding is closest (by squared
    /// Euclidean distance) to the query vector, among the rows that carry
    /// an embedding; nothing when no row does. Among rows at equal
    /// distance, which one comes back is not specified.
    pub fn nearest<'a>(&'a self, q: &Embedding) -> (r: Option<&'a Ship>)
        requires
            self.wf(),
            q.wf(),
        ensures
            r is Some <==> exists|i: int|
                0 <= i < self@.len() && (#[trigger] self@[i]).embedding is Some,
            r is Some ==> {
                let sv = r->0@;
                &&& sv.embedding is Some
                &&& exists|i: int| 0 <= i < self@.len() && #[trigger] self@[i] == sv
                &&& forall|i: int|
                    0 <= i < self@.len() && (#[trigger] self@[i]).embedding is Some ==> dist_sq(
                        q@,
                        sv.embedding->0,
                    ) <= dist_sq(q@, self@[i].embedding->0)
            },
    {
        let n: usize = self.rows.len();
        let mut best: Option<usize> = None;
        let mut best_dist: u128 = 0;
        let mut i: usize = 0;
        while i < n
            invariant
                self.wf(),
                q.wf(),
                n == self@.len(),
                i <= n,
                match best {
                    Some(b) => {
                        &&& b < i
                        &&& self@[b as int].embedding is Some
                        &&& best_dist == dist_sq(q@, self@[b as int].embedding->0)
                        &&& forall|j: int|
                            0 <= j < i && (#[trigger] self@[j]).embedding is Some ==> best_dist
                                <= dist_sq(q@, self@[j].embedding->0)
                    },
                    None => forall|j: int| 0 <= j < i ==> (#[trigger] self@[j]).embedding is None,
                },
            decreases n - i,
        {
            let row = &self.rows[i];
            match &row.embedding {
                Some(e) => {
                    proof {
                        assert(self@[i as int].wf());
                        assert(self@[i as int].embedding == Some(e@));
                        assert(e@.len() == EMBEDDING_DIM);
                    }
                    let d: u128 = q.dist_sq_to(e);
                    match best {
                        None => {
                            best = Some(i);
                            best_dist = d;
                        },
                        Some(_) => {
                            if d < best_dist {
                                best = Some(i);
                                best_dist = d;
                            }
                        },
                    }
                },
                None => {},
            }
            i = i + 1;
        }
        match best {
            Some(b) => Some(&self.rows[b]),
            None => None,
        }
    }

    /// Every stored record, in ascending approval-date order with dateless
    /// rows last; rows sharing a date may come back in any order.
    pub fn list_all(&self) -> (r: Vec<Ship>)
        ensures
            r.deep_view().to_multiset() == self@.to_multiset(),
            sorted_by_date(r.deep_view()),
    {
        broadcast use group_to_multiset_ensures;

        let n: usize = self.rows.len();
        let mut out: Vec<Ship> = Vec::new();
        let mut i: usize = 0;
        proof {
            assert(self@.take(0).to_multiset() =~= out.deep_view().to_multiset());
        }
        while i < n
            invariant
                n == self@.len(),
                i <= n,
                out.deep_view().to_multiset() == self@.take(i as int).to_multiset(),
                sorted_by_date(out.deep_view()),
            decreases n - i,
        {
            broadcast use group_to_multiset_ensures;

            let ship = self.rows[i].clone();
            let ghost prev = out.deep_view();
            let key: u32 = date_key_exec(&ship);
            let m: usize = out.len();
            let mut p: usize = 0;
            while p < m && date_key_le(&out[p], key)
                invariant
                    m == out.deep_view().len(),
                    p <= m,
                    key == date_key_of(ship@),
                    forall|q: int| 0 <= q < p ==> date_key_of(#[trigger] out.deep_view()[q]) <= key,
                decreases m - p,
            {
                p = p + 1;
            }
            proof {
                if p < m {
                    assert(date_key_of(out.deep_view()[p as int]) > key);
                }
            }
            out.insert(p, ship);
            proof {
                assert(out.deep_view() =~= prev.insert(p as int, ship@));
                lemma_insert_to_multiset(prev, p as int, ship@);
                assert(self@.take(i + 1) =~= self@.take(i as int).push(self@[i as int]));
                assert(ship@ == self@[i as int]);
                assert(out.deep_view().to_multiset() =~= self@.take(i + 1).to_multiset());
                assert(sorted_by_date(out.deep_view())) by {
                    assert(forall|q: int|
                        0 <= q < p ==> #[trigger] out.deep_view()[q] == prev[q]);
                    assert(forall|q: int|
                        p < q < out.deep_view().len() ==> #[trigger] out.deep_view()[q] == prev[q
                            - 1]);
                    assert(out.deep_view()[p as int] == ship@);
                }
            }
            i = i + 1;
        }
        proof {
            assert(self@.take(n as int) =~= self@);
        }
        out
    }
}

fn date_key_exec(s: &Ship) -> (r: u32)
    ensures
        r == date_key_of(s@),
{
    match &s.approved_at {
        Some(d) => d.year as u32 * 10000 + d.month as u32 * 100 + d.day as u32,
        None => 100000000,
    }
}

fn date_key_le(s: &Ship, key: u32) -> (r: bool)
    ensures
        r == (date_key_of(s@) <= key),
{
    date_key_exec(s) <= key
}

} // verus!
