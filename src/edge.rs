//! Edges of the graph and the shortcuts that replace pairs of them.
use vstd::prelude::*;

verus! {

/// A directed edge with a cost vector in ticks.
#[derive(Debug, Clone)]
pub struct Edge<EID, NID> {
    pub id: EID,
    pub from: NID,
    pub to: NID,
    pub cost: Vec<i64>,
}

/// An edge standing for the path `e1 . e2`.
#[derive(Debug)]
pub struct Shortcut<EID, NID> {
    pub from: NID,
    pub to: NID,
    pub cost: Vec<i64>,
    pub replaced_edges: (EID, EID),
}

impl<EID: Copy, NID: Copy> Edge<EID, NID> {
    pub fn new(id: EID, from: NID, to: NID, cost: Vec<i64>) -> (r: Self)
        ensures
            r.id == id,
            r.from == from,
            r.to == to,
            r.cost@ == cost@,
    {
        Edge { id, from, to, cost }
    }
}

} // verus!
