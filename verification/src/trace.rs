//! Depth accounting for the recursive color walk.
//!
//! A ray is followed through at most `depth` scattering events. Each bounce
//! spends one unit of budget; when the budget is gone the walk stops and the
//! color contribution is black. The hard cutoff is an accepted simplification:
//! no correction is applied for the truncated tail of the recursion.

use vstd::prelude::*;

verus! {

/// Spend one unit of recursion budget.
///
/// Returns `None` when the budget is exhausted, so the caller must answer
/// black without probing the scene; otherwise returns the budget left for
/// the scattered ray. The result strictly decreases, so the color walk
/// terminates.
pub fn trace_budget(depth: u32) -> (r: Option<u32>)
    ensures
        depth == 0 ==> r is None,
        depth > 0 ==> r == Some((depth - 1) as u32),
        r matches Some(left) ==> left < depth,
{
    if depth > 0 {
        Some(depth - 1)
    } else {
        None
    }
}

} // verus!
