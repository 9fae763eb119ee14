//! Contraction of one node: the necessity test on every pair of an incoming
//! and an outgoing edge, as a state machine.
//!
//! The caller gathers the edges into and out of the node, starts with
//! [`Contraction::begin`], and while [`Contraction::next_pair`] names a pair
//! `(i, j)` runs the test on `to_edges[i]` and `from_edges[j]` and hands its
//! outcome to [`Contraction::on_decision`]. The pairs come in row-major order,
//! each exactly once.
use vstd::prelude::*;
use vstd::std_specs::cmp::PartialEqSpec;

use crate::edge::{Edge, Shortcut};

verus! {

/// Every incoming edge ends where every outgoing edge starts.
pub open spec fn all_connect<EID, NID: PartialEqSpec>(
    to_edges: Seq<Edge<EID, NID>>,
    from_edges: Seq<Edge<EID, NID>>,
) -> bool {
    forall|i: int, j: int|
        0 <= i < to_edges.len() && 0 <= j < from_edges.len() ==> (#[trigger] to_edges[i]).to.eq_spec(
            &(#[trigger] from_edges[j]).from,
        )
}

/// The index of pair `(i, j)` in row-major order over `n_from` columns.
pub open spec fn pair_position(i: int, j: int, n_from: int) -> int {
    i * n_from + j
}

/// The progress of contracting one node.
pub struct Contraction<EID, NID> {
    /// Number of incoming edges.
    pub n_to: usize,
    /// Number of outgoing edges.
    pub n_from: usize,
    /// Incoming edge of the next pair.
    pub to_index: usize,
    /// Outgoing edge of the next pair.
    pub from_index: usize,
    /// The shortcuts found so far, in the order of their pairs.
    pub shortcuts: Vec<Shortcut<EID, NID>>,
}

impl<EID: Copy, NID: Copy + PartialEq + PartialEqSpec> Contraction<EID, NID> {
    /// The next pair lies in the grid, or the grid is used up.
    pub open spec fn wf(&self) -> bool {
        &&& self.to_index <= self.n_to
        &&& self.n_from > 0 ==> self.from_index < self.n_from
        &&& self.n_from == 0 ==> self.from_index == 0
        &&& self.to_index == self.n_to ==> self.from_index == 0
    }

    /// How many pairs have been decided.
    pub open spec fn position(&self) -> int {
        pair_position(self.to_index as int, self.from_index as int, self.n_from as int)
    }

    /// Starts contracting a node, given the edges into it and out of it.
    /// `None` when some incoming edge does not end where some outgoing edge starts.
    pub fn begin(to_edges: &Vec<Edge<EID, NID>>, from_edges: &Vec<Edge<EID, NID>>) -> (r: Option<Self>)
        requires
            NID::obeys_eq_spec(),
        ensures
            r is None <==> !all_connect(to_edges@, from_edges@),
            r matches Some(c) ==> {
                &&& c.wf()
                &&& c.n_to == to_edges@.len()
                &&& c.n_from == from_edges@.len()
                &&& c.to_index == 0
                &&& c.from_index == 0
                &&& c.shortcuts@.len() == 0
            },
    {
        let mut i: usize = 0;
        while i < to_edges.len()
            invariant
                NID::obeys_eq_spec(),
                i <= to_edges@.len(),
                forall|a: int, b: int|
                    0 <= a < i && 0 <= b < from_edges@.len() ==> (#[trigger] to_edges@[a]).to.eq_spec(
                        &(#[trigger] from_edges@[b]).from,
                    ),
            decreases to_edges@.len() - i,
        {
            let mut j: usize = 0;
            while j < from_edges.len()
                invariant
                    NID::obeys_eq_spec(),
                    i < to_edges@.len(),
                    j <= from_edges@.len(),
                    forall|a: int, b: int|
                        0 <= a < i && 0 <= b < from_edges@.len() ==> (#[trigger] to_edges@[a]).to.eq_spec(
                            &(#[trigger] from_edges@[b]).from,
                        ),
                    forall|b: int| 0 <= b < j ==> to_edges@[i as int].to.eq_spec(&(#[trigger] from_edges@[b]).from),
                decreases from_edges@.len() - j,
            {
                if !(to_edges[i].to == from_edges[j].from) {
                    return None;
                }
                j = j + 1;
            }
            i = i + 1;
        }
        Some(Contraction { n_to: to_edges.len(), n_from: from_edges.len(), to_index: 0, from_index: 0, shortcuts: Vec::new() })
    }

    /// The pair to decide next: `(incoming, outgoing)` edge indices, or `None`
    /// once every pair has been decided.
    pub fn next_pair(&self) -> (r: Option<(usize, usize)>)
        requires
            self.wf(),
        ensures
            r == if self.position() < self.n_to * self.n_from {
                Some((self.to_index, self.from_index))
            } else {
                None::<(usize, usize)>
            },
    {
        proof {
            lemma_position_in_grid(self.n_to as int, self.n_from as int, self.to_index as int, self.from_index as int);
        }
        if self.to_index < self.n_to && self.n_from > 0 {
            Some((self.to_index, self.from_index))
        } else {
            None
        }
    }

    /// Records the outcome of the test on the current pair and moves to the next.
    pub fn on_decision(&mut self, decided: Option<Shortcut<EID, NID>>)
        requires
            old(self).wf(),
            old(self).position() < old(self).n_to * old(self).n_from,
        ensures
            final(self).wf(),
            final(self).position() == old(self).position() + 1,
            final(self).n_to == old(self).n_to,
            final(self).n_from == old(self).n_from,
            final(self).shortcuts@ == match decided {
                Some(s) => old(self).shortcuts@.push(s),
                None => old(self).shortcuts@,
            },
    {
        proof {
            lemma_position_in_grid(self.n_to as int, self.n_from as int, self.to_index as int, self.from_index as int);
        }
        let ghost (i0, j0, n) = (self.to_index as int, self.from_index as int, self.n_from as int);
        match decided {
            Some(s) => self.shortcuts.push(s),
            None => {},
        }
        if self.from_index + 1 < self.n_from {
            self.from_index = self.from_index + 1;
        } else {
            self.from_index = 0;
            self.to_index = self.to_index + 1;
            assert((i0 + 1) * n == i0 * n + j0 + 1) by (nonlinear_arith)
                requires
                    j0 + 1 == n,
            ;
        }
    }
}

/// Within a well-formed state, the position is below the number of pairs
/// exactly when the next pair lies in the grid.
proof fn lemma_position_in_grid(n_to: int, n_from: int, i: int, j: int)
    requires
        0 <= i <= n_to,
        0 <= n_from,
        n_from > 0 ==> 0 <= j < n_from,
        n_from == 0 ==> j == 0,
        i == n_to ==> j == 0,
    ensures
        pair_position(i, j, n_from) < n_to * n_from <==> (i < n_to && n_from > 0),
{
    if n_from > 0 {
        if i < n_to {
            assert(i * n_from + j < (i + 1) * n_from) by (nonlinear_arith)
                requires
                    j < n_from,
            ;
            assert((i + 1) * n_from <= n_to * n_from) by (nonlinear_arith)
                requires
                    i + 1 <= n_to,
                    n_from > 0,
            ;
        }
    } else {
        assert(i * n_from == 0 && n_to * n_from == 0) by (nonlinear_arith)
            requires
                n_from == 0,
        ;
    }
}

/// Each pair of an incoming and an outgoing edge has its own position below
/// the number of pairs, so a contraction, which moves through the positions
/// one by one from zero, decides every pair exactly once, on the same edges
/// as a direct call of the test.
pub proof fn lemma_each_pair_once(n_to: int, n_from: int, i1: int, j1: int, i2: int, j2: int)
    requires
        0 <= i1 < n_to,
        0 <= i2 < n_to,
        0 <= j1 < n_from,
        0 <= j2 < n_from,
    ensures
        0 <= pair_position(i1, j1, n_from) < n_to * n_from,
        pair_position(i1, j1, n_from) == pair_position(i2, j2, n_from) ==> i1 == i2 && j1 == j2,
{
    lemma_position_in_grid(n_to, n_from, i1, j1);
    assert(0 <= i1 * n_from) by (nonlinear_arith)
        requires
            0 <= i1,
            0 < n_from,
    ;
    if pair_position(i1, j1, n_from) == pair_position(i2, j2, n_from) {
        assert(i1 == i2) by (nonlinear_arith)
            requires
                i1 * n_from + j1 == i2 * n_from + j2,
                0 <= j1 < n_from,
                0 <= j2 < n_from,
        ;
    }
}

} // verus!
