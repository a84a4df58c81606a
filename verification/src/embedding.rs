//! Fixed-dimension embedding vectors and the distance that ranks them.
//!
//! The embedding service returns real-valued vectors; before they reach
//! this crate each component is mapped to a fixed-point integer, which
//! keeps the ranking exact: nearest-neighbor search only compares
//! distances, and the squared Euclidean distance below is computed without
//! rounding.

use vstd::prelude::*;

verus! {

/// Every stored embedding has exactly this many components.
pub const EMBEDDING_DIM: usize = 1536;

/// One embedding vector: a fixed-length list of fixed-point components.
#[derive(Debug)]
pub struct Embedding {
    pub components: Vec<i32>,
}

impl View for Embedding {
    type V = Seq<i32>;

    open spec fn view(&self) -> Seq<i32> {
        self.components@
    }
}

impl DeepView for Embedding {
    type V = Seq<i32>;

    open spec fn deep_view(&self) -> Seq<i32> {
        self.components@
    }
}

impl Clone for Embedding {
    fn clone(&self) -> (r: Self)
        ensures
            r@ == self@,
    {
        let n: usize = self.components.len();
        let mut c: Vec<i32> = Vec::new();
        let mut i: usize = 0;
        while i < n
            invariant
                n == self@.len(),
                i <= n,
                c@ == self@.take(i as int),
            decreases n - i,
        {
            c.push(self.components[i]);
            proof {
                assert(self@.take(i + 1) =~= self@.take(i as int).push(self@[i as int]));
            }
            i = i + 1;
        }
        proof {
            assert(self@.take(n as int) =~= self@);
        }
        Embedding { components: c }
    }
}

/// Squared Euclidean distance between two component sequences, summed over
/// the shorter length.
pub open spec fn dist_sq(a: Seq<i32>, b: Seq<i32>) -> int
    decreases a.len(),
{
    if a.len() == 0 || b.len() == 0 {
        0
    } else {
        let d = a.last() - b.last();
        dist_sq(a.drop_last(), b.drop_last()) + d * d
    }
}

impl Embedding {
    /// The vector has the fixed dimension.
    pub open spec fn wf(self) -> bool {
        self@.len() == EMBEDDING_DIM
    }

    /// Accepts a component list exactly when it has the fixed dimension.
    pub fn from_components(components: Vec<i32>) -> (r: Option<Embedding>)
        ensures
            r is Some <==> components@.len() == EMBEDDING_DIM,
            r is Some ==> r->0@ == components@ && r->0.wf(),
    {
        if components.len() == EMBEDDING_DIM {
            Some(Embedding { components })
        } else {
            None
        }
    }

    /// Squared Euclidean distance to another embedding of the same
    /// dimension. The square root is never taken: ranking by squared
    /// distance orders vectors exactly as ranking by distance does.
    pub fn dist_sq_to(&self, other: &Embedding) -> (r: u128)
        requires
            self.wf(),
            other.wf(),
        ensures
            r == dist_sq(self@, other@),
    {
        let n: usize = self.components.len();
        let mut acc: u128 = 0;
        let mut i: usize = 0;
        while i < n
            invariant
                n == self@.len() == other@.len(),
                i <= n,
                acc == dist_sq(self@.take(i as int), other@.take(i as int)),
                acc <= i * 0x1_0000_0000_0000_0000,
                n == EMBEDDING_DIM,
            decreases n - i,
        {
            let d: i64 = self.components[i] as i64 - other.components[i] as i64;
            let dw: i128 = d as i128;
            let ghost dd: int = d as int;
            proof {
                assert(0 <= dd * dd <= 0x1_0000_0000_0000_0000) by (nonlinear_arith)
                    requires
                        -0x1_0000_0000 <= dd <= 0x1_0000_0000,
                ;
                assert(self@.take(i + 1).drop_last() =~= self@.take(i as int));
                assert(other@.take(i + 1).drop_last() =~= other@.take(i as int));
                assert(self@.take(i + 1).last() == self@[i as int]);
                assert(other@.take(i + 1).last() == other@[i as int]);
            }
            let sq: u128 = (dw * dw) as u128;
            proof {
                assert(sq == dd * dd);
                assert(dist_sq(self@.take(i + 1), other@.take(i + 1)) == dist_sq(
                    self@.take(i as int),
                    other@.take(i as int),
                ) + dd * dd);
            }
            acc = acc + sq;
            i = i + 1;
        }
        proof {
            assert(self@.take(n as int) =~= self@);
            assert(other@.take(n as int) =~= other@);
        }
        acc
    }
}

} // verus!
