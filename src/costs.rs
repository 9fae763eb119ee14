//! Arithmetic on fixed-dimension cost vectors.
use vstd::prelude::*;

verus! {

/// Ticks in one unit of cost or of preference weight.
pub const SCALE: i64 = 1_000_000_000;

/// Equality tolerance in ticks: half a millionth of a unit.
pub const ACCURACY: i64 = 500;

/// Two values are equal up to the tolerance.
pub open spec fn close(a: int, b: int) -> bool {
    -ACCURACY <= a - b <= ACCURACY
}

/// Same length, and equal component by component up to the tolerance.
pub open spec fn same_costs(a: Seq<i64>, b: Seq<i64>) -> bool {
    &&& a.len() == b.len()
    &&& forall|i: int| 0 <= i < a.len() ==> close(#[trigger] a[i] as int, b[i] as int)
}

/// `p` is nowhere worse than `s` and differs from it somewhere by more than the tolerance.
pub open spec fn dominated(p: Seq<i64>, s: Seq<i64>) -> bool {
    &&& forall|i: int| 0 <= i < p.len() ==> #[trigger] p[i] <= s[i]
    &&& exists|i: int| 0 <= i < p.len() && !close(#[trigger] p[i] as int, s[i] as int)
}

/// The weight of each component in the uniform preference over `d` components.
pub open spec fn uniform_weight(d: nat) -> int {
    SCALE as int / d as int
}

/// Weighted sum of the first `n` components.
pub open spec fn weighted(c: Seq<i64>, a: Seq<i64>, n: int) -> int
    decreases n,
{
    if n <= 0 {
        0
    } else {
        weighted(c, a, n - 1) + c[n - 1] * a[n - 1]
    }
}

/// A coefficient whose magnitude is below the tolerance counts as zero.
pub open spec fn snap(x: int) -> int {
    if -ACCURACY < x < ACCURACY {
        0
    } else {
        x
    }
}

/// The uniform preference `[1/d, ..., 1/d]` in ticks (rounded down).
pub fn equal_weights(dim: usize) -> (r: Vec<i64>)
    ensures
        r@.len() == dim,
        forall|i: int| 0 <= i < dim ==> r@[i] == uniform_weight(dim as nat),
{
    let w: i64 = if dim == 0 {
        0
    } else {
        (SCALE as u64 / dim as u64) as i64
    };
    let mut r: Vec<i64> = Vec::new();
    let mut k: usize = 0;
    while k < dim
        invariant
            k <= dim,
            r@.len() == k,
            dim > 0 ==> w == uniform_weight(dim as nat),
            forall|i: int| 0 <= i < k ==> r@[i] == w,
        decreases dim - k,
    {
        r.push(w);
        k = k + 1;
    }
    r
}

/// Whether `a` and `b` have the same length and agree componentwise up to the tolerance.
pub fn same_array(a: &[i64], b: &[i64]) -> (r: bool)
    ensures
        r == same_costs(a@, b@),
{
    if a.len() != b.len() {
        return false;
    }
    let mut i: usize = 0;
    while i < a.len()
        invariant
            a@.len() == b@.len(),
            i <= a@.len(),
            forall|j: int| 0 <= j < i ==> close(#[trigger] a@[j] as int, b@[j] as int),
        decreases a@.len() - i,
    {
        let d: i128 = a[i] as i128 - b[i] as i128;
        if d < -(ACCURACY as i128) || d > ACCURACY as i128 {
            return false;
        }
        i = i + 1;
    }
    true
}

/// In-place componentwise sum `a <- a + b`.
pub fn add_edge_costs(a: &mut Vec<i64>, b: &[i64])
    requires
        old(a)@.len() == b@.len(),
        forall|i: int|
            0 <= i < b@.len() ==> i64::MIN <= #[trigger] old(a)@[i] + b@[i] <= i64::MAX,
    ensures
        final(a)@.len() == old(a)@.len(),
        forall|i: int| 0 <= i < b@.len() ==> final(a)@[i] == old(a)@[i] + b@[i],
{
    let ghost a0 = a@;
    let mut i: usize = 0;
    while i < b.len()
        invariant
            a@.len() == b@.len(),
            a0.len() == b@.len(),
            i <= b@.len(),
            forall|j: int| 0 <= j < b@.len() ==> i64::MIN <= #[trigger] a0[j] + b@[j] <= i64::MAX,
            forall|j: int| 0 <= j < i ==> #[trigger] a@[j] == a0[j] + b@[j],
            forall|j: int| i <= j < b@.len() ==> #[trigger] a@[j] == a0[j],
        decreases b@.len() - i,
    {
        let v: i64 = a[i] + b[i];
        a.set(i, v);
        i = i + 1;
    }
}

/// The weighted sum `sum(c_i * alpha_i)`, in ticks squared.
pub fn costs_by_alpha(costs: &[i64], alpha: &[i64]) -> (r: i128)
    requires
        costs@.len() == alpha@.len(),
        forall|n: int|
            0 <= n <= costs@.len() ==> i128::MIN <= #[trigger] weighted(costs@, alpha@, n)
                <= i128::MAX,
    ensures
        r == weighted(costs@, alpha@, costs@.len() as int),
{
    let mut res: i128 = 0;
    let mut i: usize = 0;
    while i < costs.len()
        invariant
            costs@.len() == alpha@.len(),
            i <= costs@.len(),
            res == weighted(costs@, alpha@, i as int),
            forall|n: int|
                0 <= n <= costs@.len() ==> i128::MIN <= #[trigger] weighted(costs@, alpha@, n)
                    <= i128::MAX,
        decreases costs@.len() - i,
    {
        let c: i64 = costs[i];
        let w: i64 = alpha[i];
        proof {
            let (ci, wi) = (c as int, w as int);
            assert(-0x4000_0000_0000_0000_0000_0000_0000_0000 <= ci * wi
                <= 0x4000_0000_0000_0000_0000_0000_0000_0000) by (nonlinear_arith)
                requires
                    -0x8000_0000_0000_0000 <= ci <= 0x7fff_ffff_ffff_ffff,
                    -0x8000_0000_0000_0000 <= wi <= 0x7fff_ffff_ffff_ffff,
            ;
        }
        let prod: i128 = c as i128 * w as i128;
        assert(weighted(costs@, alpha@, i + 1) == res + prod);
        assert(i128::MIN <= weighted(costs@, alpha@, i + 1) <= i128::MAX);
        res = res + prod;
        i = i + 1;
    }
    res
}

/// Whether `path_cost` dominates `shortcut_cost`: nowhere greater, and somewhere
/// different by more than the tolerance. Equal vectors do not dominate.
pub fn is_dominated(path_cost: &[i64], shortcut_cost: &[i64]) -> (r: bool)
    requires
        path_cost@.len() == shortcut_cost@.len(),
    ensures
        r == dominated(path_cost@, shortcut_cost@),
{
    let mut some_different = false;
    let mut i: usize = 0;
    while i < path_cost.len()
        invariant
            path_cost@.len() == shortcut_cost@.len(),
            i <= path_cost@.len(),
            forall|j: int| 0 <= j < i ==> #[trigger] path_cost@[j] <= shortcut_cost@[j],
            some_different == exists|j: int|
                0 <= j < i && !close(#[trigger] path_cost@[j] as int, shortcut_cost@[j] as int),
        decreases path_cost@.len() - i,
    {
        let p: i64 = path_cost[i];
        let s: i64 = shortcut_cost[i];
        if p > s {
            return false;
        }
        let d: i128 = p as i128 - s as i128;
        if d < -(ACCURACY as i128) || d > ACCURACY as i128 {
            some_different = true;
        }
        i = i + 1;
    }
    some_different
}

/// Zeroes every coefficient whose magnitude is below the tolerance.
pub fn normalize_constraint(costs: &[i64]) -> (r: Vec<i64>)
    ensures
        r@.len() == costs@.len(),
        forall|i: int| 0 <= i < costs@.len() ==> r@[i] == snap(#[trigger] costs@[i] as int),
{
    let mut r: Vec<i64> = Vec::new();
    let mut i: usize = 0;
    while i < costs.len()
        invariant
            i <= costs@.len(),
            r@.len() == i,
            forall|j: int| 0 <= j < i ==> r@[j] == snap(#[trigger] costs@[j] as int),
        decreases costs@.len() - i,
    {
        let c: i64 = costs[i];
        if -ACCURACY < c && c < ACCURACY {
            r.push(0);
        } else {
            r.push(c);
        }
        i = i + 1;
    }
    r
}

} // verus!
