//! The necessity test for one candidate shortcut, as a state machine.
//!
//! The caller owns the shortest-path oracle and the LP solver. It starts a search
//! with [`ShortcutSearch::begin`], then answers each [`Step`]:
//! on `FindPath` it hands the cost of the best path under `alpha` to
//! [`ShortcutSearch::on_path`]; on `Solve` it adds `constraint` to the LP,
//! solves it (exactly when `exact` is set) and hands the answer to
//! [`ShortcutSearch::on_solution`]; `Accept` and `Reject` end the search.
use vstd::prelude::*;
use vstd::std_specs::cmp::PartialEqSpec;

use crate::costs::{
    add_edge_costs, close, dominated, equal_weights, is_dominated, normalize_constraint,
    same_array, same_costs, snap, uniform_weight, ACCURACY,
};
use crate::edge::{Edge, Shortcut};

verus! {

/// What the search asks for next, or how it ended.
#[derive(Clone, Copy, Debug, PartialEq, Eq, Structural)]
pub enum Step {
    /// Query the shortest-path oracle under `alpha`.
    FindPath,
    /// Add `constraint` to the LP and solve it.
    Solve,
    /// The shortcut is necessary.
    Accept,
    /// The shortcut is not needed.
    Reject,
}

/// All components are non-negative.
pub open spec fn non_negative(c: Seq<i64>) -> bool {
    forall|i: int| 0 <= i < c.len() ==> 0 <= #[trigger] c[i]
}

/// The cutting plane a witness of cost `p` adds: `(p - s) . alpha >= 0`,
/// with coefficients below the tolerance zeroed.
pub open spec fn cut(p: Seq<i64>, s: Seq<i64>) -> Seq<int> {
    Seq::new(p.len(), |i: int| snap(p[i] - s[i]))
}

/// The decision on a witness path of cost `p` against the shortcut cost `s`.
pub open spec fn path_verdict(p: Seq<i64>, s: Seq<i64>) -> Step {
    if dominated(p, s) {
        Step::Reject
    } else if same_costs(p, s) {
        Step::Accept
    } else {
        Step::Solve
    }
}

/// An LP answer as mathematical values: the preference and the slack.
pub open spec fn solution_view(sol: Option<(Vec<i64>, i64)>) -> Option<(Seq<i64>, int)> {
    match sol {
        Some((pref, delta)) => Some((pref@, delta as int)),
        None => None,
    }
}

/// The slack leaves room for the shortcut to win.
pub open spec fn has_margin(delta: int) -> bool {
    delta + ACCURACY > 0
}

/// The decision on an LP answer, given the current preference and mode.
pub open spec fn solution_verdict(alpha: Seq<i64>, exact: bool, sol: Option<(Seq<i64>, int)>) -> Step {
    match sol {
        None => Step::Reject,
        Some((pref, delta)) => if !has_margin(delta) {
            Step::Reject
        } else if same_costs(pref, alpha) && exact {
            Step::Accept
        } else {
            Step::FindPath
        },
    }
}

/// The preference after an LP answer.
pub open spec fn next_alpha(alpha: Seq<i64>, sol: Option<(Seq<i64>, int)>) -> Seq<i64> {
    match sol {
        Some((pref, delta)) => if has_margin(delta) && !same_costs(pref, alpha) {
            pref
        } else {
            alpha
        },
        None => alpha,
    }
}

/// The solving mode after an LP answer: exact once the preference stops moving.
pub open spec fn next_exact(alpha: Seq<i64>, exact: bool, sol: Option<(Seq<i64>, int)>) -> bool {
    match sol {
        Some((pref, delta)) => if has_margin(delta) {
            same_costs(pref, alpha)
        } else {
            exact
        },
        None => exact,
    }
}

/// The state of the necessity test for one candidate shortcut.
pub struct ShortcutSearch<EID, NID> {
    /// The candidate; fixed for the whole search.
    pub shortcut: Shortcut<EID, NID>,
    /// The current preference.
    pub alpha: Vec<i64>,
    /// Whether the next solve runs in exact mode.
    pub exact: bool,
    /// The constraint to add on `Step::Solve`.
    pub constraint: Vec<i64>,
}

impl<EID: Copy, NID: Copy + PartialEq + PartialEqSpec> ShortcutSearch<EID, NID> {
    /// The dimension is fixed and the shortcut cost is non-negative.
    pub open spec fn wf(&self) -> bool {
        &&& self.alpha@.len() == self.shortcut.cost@.len()
        &&& non_negative(self.shortcut.cost@)
    }

    /// Starts the test for the shortcut `e1 . e2`. A self-loop (`e1.from == e2.to`)
    /// needs no shortcut and gives `None` at once: no oracle is consulted.
    pub fn begin(e1: &Edge<EID, NID>, e2: &Edge<EID, NID>) -> (r: Option<Self>)
        requires
            NID::obeys_eq_spec(),
            !e1.from.eq_spec(&e2.to) ==> {
                &&& e1.cost@.len() == e2.cost@.len()
                &&& non_negative(e1.cost@)
                &&& non_negative(e2.cost@)
                &&& forall|i: int|
                    0 <= i < e1.cost@.len() ==> #[trigger] e1.cost@[i] + e2.cost@[i] <= i64::MAX
            },
        ensures
            r is None <==> e1.from.eq_spec(&e2.to),
            r matches Some(s) ==> {
                &&& s.wf()
                &&& s.shortcut.from == e1.from
                &&& s.shortcut.to == e2.to
                &&& s.shortcut.replaced_edges == (e1.id, e2.id)
                &&& s.shortcut.cost@.len() == e1.cost@.len()
                &&& forall|i: int|
                    0 <= i < e1.cost@.len() ==> #[trigger] s.shortcut.cost@[i] == e1.cost@[i] + e2.cost@[i]
                &&& s.alpha@.len() == e1.cost@.len()
                &&& forall|i: int| 0 <= i < e1.cost@.len() ==> #[trigger] s.alpha@[i] == uniform_weight(e1.cost@.len())
                &&& !s.exact
            },
    {
        if e1.from == e2.to {
            return None;
        }
        let mut cost = e1.cost.clone();
        assert(cost@ == e1.cost@);
        add_edge_costs(&mut cost, e2.cost.as_slice());
        let alpha = equal_weights(cost.len());
        Some(ShortcutSearch {
            shortcut: Shortcut { from: e1.from, to: e2.to, cost, replaced_edges: (e1.id, e2.id) },
            alpha,
            exact: false,
            constraint: Vec::new(),
        })
    }

    /// Takes the cost of the best path under `alpha`. A witness that dominates
    /// the shortcut rejects it, one with the same cost accepts it, and any other
    /// becomes the next cutting plane.
    pub fn on_path(&mut self, path_cost: &[i64]) -> (r: Step)
        requires
            old(self).wf(),
            path_cost@.len() == old(self).shortcut.cost@.len(),
            non_negative(path_cost@),
        ensures
            final(self).wf(),
            r == path_verdict(path_cost@, old(self).shortcut.cost@),
            final(self).shortcut == old(self).shortcut,
            final(self).alpha@ == old(self).alpha@,
            final(self).exact == old(self).exact,
            r == Step::Solve ==> {
                &&& final(self).constraint@.len() == path_cost@.len()
                &&& forall|i: int|
                    0 <= i < path_cost@.len() ==> #[trigger] final(self).constraint@[i] == cut(
                        path_cost@,
                        old(self).shortcut.cost@,
                    )[i]
            },
    {
        let s = self.shortcut.cost.as_slice();
        if is_dominated(path_cost, s) {
            return Step::Reject;
        }
        if same_array(path_cost, s) {
            return Step::Accept;
        }
        let mut diff: Vec<i64> = Vec::new();
        let mut i: usize = 0;
        while i < path_cost.len()
            invariant
                s@ == self.shortcut.cost@,
                path_cost@.len() == s@.len(),
                non_negative(path_cost@),
                non_negative(s@),
                i <= path_cost@.len(),
                diff@.len() == i,
                forall|j: int| 0 <= j < i ==> #[trigger] diff@[j] == path_cost@[j] - s@[j],
            decreases path_cost@.len() - i,
        {
            assert(0 <= path_cost@[i as int] && 0 <= s@[i as int]);
            diff.push(path_cost[i] - s[i]);
            i = i + 1;
        }
        self.constraint = normalize_constraint(diff.as_slice());
        assert forall|j: int| 0 <= j < path_cost@.len() implies #[trigger] self.constraint@[j] == cut(
            path_cost@,
            s@,
        )[j] by {
            assert(diff@[j] == path_cost@[j] - s@[j]);
        }
        Step::Solve
    }

    /// Takes the LP answer: the preference and slack, or `None` when the
    /// constraints are infeasible.
    pub fn on_solution(&mut self, solution: Option<(Vec<i64>, i64)>) -> (r: Step)
        requires
            old(self).wf(),
            solution matches Some((pref, _)) ==> pref@.len() == old(self).alpha@.len(),
        ensures
            final(self).wf(),
            r == solution_verdict(old(self).alpha@, old(self).exact, solution_view(solution)),
            final(self).alpha@ == next_alpha(old(self).alpha@, solution_view(solution)),
            final(self).exact == next_exact(old(self).alpha@, old(self).exact, solution_view(solution)),
            final(self).shortcut == old(self).shortcut,
    {
        match solution {
            None => Step::Reject,
            Some((pref, delta)) => {
                if delta <= -ACCURACY {
                    Step::Reject
                } else if same_array(pref.as_slice(), self.alpha.as_slice()) {
                    if self.exact {
                        Step::Accept
                    } else {
                        self.exact = true;
                        Step::FindPath
                    }
                } else {
                    self.alpha = pref;
                    self.exact = false;
                    Step::FindPath
                }
            },
        }
    }
}

/// A witness with exactly the shortcut's cost (as when `e1 . e2` is the only
/// path) makes the shortcut necessary.
pub proof fn lemma_only_path_accepted(s: Seq<i64>)
    ensures
        path_verdict(s, s) == Step::Accept,
{
    assert(!dominated(s, s));
}

/// A witness that is nowhere worse than the shortcut and better by more than
/// the tolerance somewhere (a dominating parallel edge) rejects it.
pub proof fn lemma_dominating_witness_rejected(p: Seq<i64>, s: Seq<i64>, j: int)
    requires
        p.len() == s.len(),
        forall|i: int| 0 <= i < p.len() ==> #[trigger] p[i] <= s[i],
        0 <= j < p.len(),
        p[j] + ACCURACY < s[j],
    ensures
        path_verdict(p, s) == Step::Reject,
{
    assert(!close(p[j] as int, s[j] as int));
}

/// Moving each component of a witness that matches the shortcut by no more
/// than the tolerance keeps the decision: the shortcut is still accepted.
pub proof fn lemma_perturbation_within_tolerance(p: Seq<i64>, s: Seq<i64>)
    requires
        p.len() == s.len(),
        forall|i: int| 0 <= i < p.len() ==> -ACCURACY <= #[trigger] p[i] - s[i] <= ACCURACY,
    ensures
        path_verdict(p, s) == Step::Accept,
{
    assert forall|i: int| 0 <= i < p.len() implies close(#[trigger] p[i] as int, s[i] as int) by {
        assert(-ACCURACY <= p[i] - s[i] <= ACCURACY);
    }
}

/// A vector never dominates itself; lowering one component by more than the
/// tolerance makes it dominate the original.
pub proof fn lemma_dominance_asymmetry(x: Seq<i64>, i: int, d: int)
    requires
        0 <= i < x.len(),
        d > ACCURACY,
        x[i] - d >= i64::MIN,
    ensures
        !dominated(x, x),
        dominated(x.update(i, (x[i] - d) as i64), x),
{
    let y = x.update(i, (x[i] - d) as i64);
    assert(!close(y[i] as int, x[i] as int));
    assert forall|k: int| 0 <= k < y.len() implies #[trigger] y[k] <= x[k] by {
        if k != i {
            assert(y[k] == x[k]);
        }
    }
}

} // verus!
