//! How many elements meet at each node.

use crate::arrays::{count_array_from_vec, count_items, CountArray};
use crate::edges::{claims_of, collect_claims, Claim};
use crate::hgrid::Hgrid;
use vstd::prelude::*;

verus! {

/// How many of the first `n` claims start at the node `node`. An element
/// claims one edge from each of its nodes, so this counts how often the
/// elements name the node.
pub open spec fn claims_from(claims: Seq<Claim>, node: int, n: int) -> nat
    decreases n,
{
    if n <= 0 {
        0
    } else {
        claims_from(claims, node, n - 1) + if claims[n - 1].1.0 == node {
            1nat
        } else {
            0nat
        }
    }
}

/// Every claim starts at a node whose id is at most `limit`.
pub open spec fn ids_at_most(claims: Seq<Claim>, limit: int) -> bool {
    forall|i: int| 0 <= i < claims.len() ==> (#[trigger] claims[i]).1.0 <= limit
}

/// No more than `n` of the first `n` claims start at one node.
pub proof fn lemma_claims_from_bound(claims: Seq<Claim>, node: int, n: int)
    requires
        0 <= n,
    ensures
        claims_from(claims, node, n) <= n,
    decreases n,
{
    if n > 0 {
        lemma_claims_from_bound(claims, node, n - 1);
    }
}

impl Hgrid {
    /// Whether the elements can be counted node by node: every node id that
    /// an element names is at most the number of nodes, and that number has
    /// a successor.
    pub fn can_count_connected_elements(&self) -> (r: bool)
        ensures
            r == (self.nodes_view().entries().len() < usize::MAX && ids_at_most(
                claims_of(self.elements_view().entries()),
                self.nodes_view().entries().len() as int,
            )),
    {
        let count = self.nodes().len();
        if count == usize::MAX {
            return false;
        }
        let items = self.elements().items();
        let claims = collect_claims(&items);
        let mut i: usize = 0;
        while i < claims.len()
            invariant
                i <= claims.len(),
                count < usize::MAX,
                count == self.nodes_view().entries().len(),
                claims@ == claims_of(self.elements_view().entries()),
                forall|j: int| 0 <= j < i ==> (#[trigger] claims@[j]).1.0 <= count,
            decreases claims.len() - i,
        {
            if claims[i].1.0 as usize > count {
                return false;
            }
            i += 1;
        }
        true
    }

    /// For every number from zero to the number of nodes, how often the
    /// elements name the node with that number as its id.
    pub fn get_number_of_elements_connected_to_each_node(&self) -> (r: CountArray)
        requires
            self.nodes_view().entries().len() < usize::MAX,
            ids_at_most(
                claims_of(self.elements_view().entries()),
                self.nodes_view().entries().len() as int,
            ),
        ensures
            count_items(r).len() == self.nodes_view().entries().len() + 1,
            forall|k: int|
                0 <= k < count_items(r).len() ==> #[trigger] count_items(r)[k] == claims_from(
                    claims_of(self.elements_view().entries()),
                    k,
                    claims_of(self.elements_view().entries()).len() as int,
                ),
    {
        let size = self.nodes().len() + 1;
        let items = self.elements().items();
        let claims = collect_claims(&items);
        let mut counts: Vec<usize> = Vec::new();
        let mut k: usize = 0;
        while k < size
            invariant
                k <= size,
                counts@.len() == k,
                forall|j: int| 0 <= j < k ==> counts@[j] == 0,
            decreases size - k,
        {
            counts.push(0);
            k += 1;
        }
        let mut i: usize = 0;
        while i < claims.len()
            invariant
                i <= claims.len(),
                counts@.len() == size,
                ids_at_most(claims@, size - 1),
                forall|j: int|
                    0 <= j < size ==> #[trigger] counts@[j] == claims_from(claims@, j, i as int),
            decreases claims.len() - i,
        {
            let node = claims[i].1.0 as usize;
            proof {
                lemma_claims_from_bound(claims@, node as int, i as int);
            }
            let seen = counts[node];
            counts.set(node, seen + 1);
            i += 1;
        }
        count_array_from_vec(counts)
    }
}

} // verus!
