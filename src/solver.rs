//! The framing of the conversation with the LP solver process.
//!
//! Requests are one control byte, followed for `ADD_CONSTRAINT` by `D` numbers.
//! A solve is answered by `FEASIBLE` and `D + 1` numbers (the preference, then
//! the slack), or by `INFEASIBLE`.
use vstd::prelude::*;

verus! {

pub const RESET: u8 = 0;
pub const ADD_CONSTRAINT: u8 = 1;
pub const SOLVE_FAST: u8 = 2;
pub const SOLVE_EXACT: u8 = 3;

/// Bytes in one number on the wire.
pub const F64_SIZE: usize = 8;

pub const FEASIBLE: u8 = 0;
pub const INFEASIBLE: u8 = 1;

/// The control byte that asks for a solve in the given mode.
pub fn solve_request(exact: bool) -> (r: u8)
    ensures
        r == if exact { SOLVE_EXACT } else { SOLVE_FAST },
{
    if exact {
        SOLVE_EXACT
    } else {
        SOLVE_FAST
    }
}

/// `n` zero bytes.
fn zero_bytes(n: usize) -> (r: Vec<u8>)
    ensures
        r@.len() == n,
        forall|i: int| 0 <= i < n ==> r@[i] == 0,
{
    let mut r: Vec<u8> = Vec::new();
    let mut k: usize = 0;
    while k < n
        invariant
            k <= n,
            r@.len() == k,
            forall|i: int| 0 <= i < k ==> r@[i] == 0,
        decreases n - k,
    {
        r.push(0);
        k = k + 1;
    }
    r
}

/// A zeroed buffer for the `dim` numbers of a constraint.
pub fn input_buffer(dim: usize) -> (r: Vec<u8>)
    requires
        F64_SIZE * dim <= usize::MAX,
    ensures
        r@.len() == F64_SIZE * dim,
        forall|i: int| 0 <= i < r@.len() ==> r@[i] == 0,
{
    zero_bytes(F64_SIZE * dim)
}

/// A zeroed buffer for the `dim + 1` numbers of a feasible answer.
pub fn output_buffer(dim: usize) -> (r: Vec<u8>)
    requires
        F64_SIZE * (dim + 1) <= usize::MAX,
    ensures
        r@.len() == F64_SIZE * (dim + 1),
        forall|i: int| 0 <= i < r@.len() ==> r@[i] == 0,
{
    zero_bytes(F64_SIZE * (dim + 1))
}

/// Splits the numbers of a feasible answer into the preference, with each
/// component raised to at least zero, and the slack that comes last.
pub fn split_solution(values: &[i64]) -> (r: (Vec<i64>, i64))
    requires
        values@.len() >= 1,
    ensures
        r.0@.len() == values@.len() - 1,
        forall|i: int|
            0 <= i < values@.len() - 1 ==> #[trigger] r.0@[i] == if values@[i] < 0 {
                0
            } else {
                values@[i]
            },
        r.1 == values@[values@.len() - 1],
{
    let n: usize = values.len() - 1;
    let mut pref: Vec<i64> = Vec::new();
    let mut i: usize = 0;
    while i < n
        invariant
            n == values@.len() - 1,
            i <= n,
            pref@.len() == i,
            forall|j: int|
                0 <= j < i ==> #[trigger] pref@[j] == if values@[j] < 0 {
                    0
                } else {
                    values@[j]
                },
        decreases n - i,
    {
        let v: i64 = values[i];
        pref.push(if v < 0 { 0 } else { v });
        i = i + 1;
    }
    (pref, values[n])
}

} // verus!
