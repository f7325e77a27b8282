//! The order of routes as a three-way comparison, and sorting a list of routes by it.
use vstd::prelude::*;

use std::cmp::Ordering;

use crate::ranking::{Ranked, rank_le, sort_by_rank, sort_ranked};
use crate::routing::Route;

verus! {

/// Compares routes by priority, then plugin, then handler.
pub fn compare_routes(left: &Route, right: &Route) -> (r: Ordering)
    ensures
        (r == Ordering::Equal) == (left.rank() == right.rank()),
        (r == Ordering::Less) == (rank_le(left.rank(), right.rank()) && left.rank() != right.rank()),
        (r == Ordering::Greater) == !rank_le(left.rank(), right.rank()),
{
    if left.priority < right.priority {
        Ordering::Less
    } else if left.priority > right.priority {
        Ordering::Greater
    } else if left.plugin_index < right.plugin_index {
        Ordering::Less
    } else if left.plugin_index > right.plugin_index {
        Ordering::Greater
    } else if left.handler_index < right.handler_index {
        Ordering::Less
    } else if left.handler_index > right.handler_index {
        Ordering::Greater
    } else {
        Ordering::Equal
    }
}

/// Sorts routes by priority, then plugin, then handler; equal routes keep their order.
pub fn sort_routes(routes: &mut Vec<Route>)
    ensures
        final(routes)@ == sort_by_rank(old(routes)@),
{
    let mut taken: Vec<Route> = Vec::new();
    std::mem::swap(&mut taken, routes);
    let sorted = sort_ranked(taken);
    *routes = sorted;
}

} // verus!
