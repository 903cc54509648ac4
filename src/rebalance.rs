//! The integer rules shared by the marginal-value (ESR) and lookahead
//! rebalancing heuristics: which store gives stock, how far the unit-by-unit
//! transfer may run, and the warehouse order once store orders are known.
//! The marginal-value comparisons themselves arrive as booleans.
use vstd::prelude::*;
use crate::base_stock::shortfall;

verus! {

/// Whether store A is the donor: a store without stock receives, a store
/// at its top level (`capacity - 1`) gives; otherwise the store that loses
/// less by giving up a unit (`a_loses_less`) gives.
pub open spec fn donor_is_a(state_a: int, state_b: int, max_sa: int, max_sb: int, a_loses_less: bool) -> bool {
    if state_a < 1 {
        false
    } else if state_b < 1 {
        true
    } else if state_a == max_sa - 1 {
        true
    } else if state_b == max_sb - 1 {
        false
    } else {
        a_loses_less
    }
}

/// Whether the `k`-th unit may move: the receiver stays below its top
/// level, the donor keeps more than `donor_floor`, and the marginal-value
/// test `accept[k]` passes.
pub open spec fn step_allowed(
    donor: int,
    receiver: int,
    receiver_cap: int,
    donor_floor: int,
    accept: Seq<bool>,
    k: int,
) -> bool {
    &&& receiver + k != receiver_cap - 1
    &&& donor - k != donor_floor
    &&& accept[k]
}

/// The donor store for state `(state_a, state_b)`; see [`donor_is_a`].
pub fn choose_donor(state_a: usize, state_b: usize, max_sa: usize, max_sb: usize, a_loses_less: bool) -> (r: bool)
    ensures
        r == donor_is_a(state_a as int, state_b as int, max_sa as int, max_sb as int, a_loses_less),
{
    if state_a < 1 {
        false
    } else if state_b < 1 {
        true
    } else if max_sa >= 1 && state_a == max_sa - 1 {
        true
    } else if max_sb >= 1 && state_b == max_sb - 1 {
        false
    } else {
        a_loses_less
    }
}

/// The number of units moved one at a time from a donor holding `donor`
/// units to a receiver holding `receiver` units, stopping before the first
/// unit that is not allowed (see [`step_allowed`]). `accept[k]` is the
/// marginal-value test for the `k`-th unit, with the donor at `donor - k`
/// and the receiver at `receiver + k`.
pub fn transfer_count(
    donor: usize,
    receiver: usize,
    receiver_cap: usize,
    donor_floor: usize,
    accept: &Vec<bool>,
) -> (r: usize)
    requires
        receiver < receiver_cap,
        donor_floor <= donor,
        accept@.len() >= donor - donor_floor || accept@.len() >= receiver_cap - 1 - receiver,
    ensures
        r <= donor - donor_floor,
        r <= receiver_cap - 1 - receiver,
        forall|k: int| 0 <= k < r ==> step_allowed(
            donor as int,
            receiver as int,
            receiver_cap as int,
            donor_floor as int,
            accept@,
            k,
        ),
        !step_allowed(
            donor as int,
            receiver as int,
            receiver_cap as int,
            donor_floor as int,
            accept@,
            r as int,
        ),
{
    let mut k: usize = 0;
    while receiver + k != receiver_cap - 1 && donor - k != donor_floor && accept[k]
        invariant
            receiver < receiver_cap,
            donor_floor <= donor,
            accept@.len() >= donor - donor_floor || accept@.len() >= receiver_cap - 1 - receiver,
            k <= donor - donor_floor,
            k <= receiver_cap - 1 - receiver,
            forall|i: int| 0 <= i < k ==> step_allowed(
                donor as int,
                receiver as int,
                receiver_cap as int,
                donor_floor as int,
                accept@,
                i,
            ),
        decreases donor - donor_floor - k,
    {
        k = k + 1;
    }
    k
}

/// The transshipment `(A to B, B to A)` that moves `units` from the donor.
pub fn donor_shipment(donor_a: bool, units: usize) -> (r: (usize, usize))
    ensures
        donor_a ==> r == (units, 0usize),
        !donor_a ==> r == (0usize, units),
{
    if donor_a {
        (units, 0)
    } else {
        (0, units)
    }
}

/// The warehouse's base-stock order once the stores pick up `picked` units
/// from its stock `wh`: what it lacks of `warehouse_bs` over what remains.
pub fn warehouse_order(warehouse_bs: usize, wh: usize, picked: usize) -> (r: usize)
    ensures
        r == shortfall(warehouse_bs as int, shortfall(wh as int, picked as int)),
{
    let retained: usize = if wh > picked {
        wh - picked
    } else {
        0
    };
    if warehouse_bs > retained {
        warehouse_bs - retained
    } else {
        0
    }
}

} // verus!
