//! Proportional rebalancing: each store's target is its share of the two
//! stores' stock, in proportion to its mean demand.
use vstd::prelude::*;
use crate::base_stock::shortfall;

verus! {

/// A fair coin from the thread-local generator. `random_ratio(n, d)` panics
/// unless `0 < d` and `n <= d`; it returns `true` when `n == d` and `false`
/// when `n == 0`.
pub assume_specification[ rand::random_ratio ](numerator: u32, denominator: u32) -> (r: bool)
    requires
        0 < denominator,
        numerator <= denominator,
    ensures
        numerator == denominator ==> r,
        numerator == 0 ==> !r,
;

/// The proportional share `mean * total / (mean + other)` rounded down.
pub open spec fn share_floor(mean: int, other: int, total: int) -> int {
    (mean * total) / (mean + other)
}

/// A store's target rounded down and capped at `cap`.
pub open spec fn target_floor(mean: int, other: int, total: int, cap: int) -> int {
    if share_floor(mean, other, total) >= cap {
        cap
    } else {
        share_floor(mean, other, total)
    }
}

/// The capped proportional target is a whole number.
pub open spec fn target_whole(mean: int, other: int, total: int, cap: int) -> bool {
    share_floor(mean, other, total) >= cap || (mean * total) % (mean + other) == 0
}

/// Whether the leftover unit goes to store A; `coin` decides where neither
/// store's rounded-down target is at its cap.
pub open spec fn leftover_to_a(floor_a: int, floor_b: int, cap_a: int, cap_b: int, coin: bool) -> bool {
    if floor_a == cap_a {
        false
    } else if floor_b == cap_b {
        true
    } else {
        coin
    }
}

/// The two stores' targets.
pub open spec fn tie_targets(
    state_a: int,
    state_b: int,
    mean_a: int,
    mean_b: int,
    max_sa: int,
    max_sb: int,
    coin: bool,
) -> (int, int) {
    let total = state_a + state_b;
    let fa = target_floor(mean_a, mean_b, total, max_sa - 1);
    let fb = target_floor(mean_b, mean_a, total, max_sb - 1);
    if target_whole(mean_a, mean_b, total, max_sa - 1) && target_whole(
        mean_b,
        mean_a,
        total,
        max_sb - 1,
    ) {
        (fa, fb)
    } else if leftover_to_a(fa, fb, max_sa - 1, max_sb - 1, coin) {
        (fa + 1, fb)
    } else {
        (fa, fb + 1)
    }
}

/// Whether the targets depend on the coin.
pub open spec fn tie_needs_coin(
    state_a: int,
    state_b: int,
    mean_a: int,
    mean_b: int,
    max_sa: int,
    max_sb: int,
) -> bool {
    tie_targets(state_a, state_b, mean_a, mean_b, max_sa, max_sb, true) != tie_targets(
        state_a,
        state_b,
        mean_a,
        mean_b,
        max_sa,
        max_sb,
        false,
    )
}

/// The transshipment `(A to B, B to A)` that brings each store up to its
/// target.
pub open spec fn tie_moves(
    state_a: int,
    state_b: int,
    mean_a: int,
    mean_b: int,
    max_sa: int,
    max_sb: int,
    coin: bool,
) -> (int, int) {
    let t = tie_targets(state_a, state_b, mean_a, mean_b, max_sa, max_sb, coin);
    (shortfall(t.1, state_b), shortfall(t.0, state_a))
}

/// The share of `mean` in the stock `stock_a + stock_b`, rounded down and
/// capped at `cap`, and whether the capped share is a whole number.
fn capped_share(mean: u32, other: u32, stock_a: usize, stock_b: usize, cap: usize) -> (r: (
    usize,
    bool,
))
    requires
        0 < mean + other,
    ensures
        r.0 == target_floor(mean as int, other as int, stock_a + stock_b, cap as int),
        r.1 == target_whole(mean as int, other as int, stock_a + stock_b, cap as int),
{
    let total: u128 = stock_a as u128 + stock_b as u128;
    let sum: u128 = mean as u128 + other as u128;
    assert(mean * total <= 0xffff_ffff * (2 * 0xffff_ffff_ffff_ffffu128)) by (nonlinear_arith)
        requires
            mean <= 0xffff_ffff,
            total <= 2 * 0xffff_ffff_ffff_ffffu128,
    ;
    let prod: u128 = mean as u128 * total;
    let share: u128 = prod / sum;
    if share >= cap as u128 {
        (cap, true)
    } else {
        (share as usize, prod % sum == 0)
    }
}

/// The proportional rebalancing for stocks `state_store_a` and
/// `state_store_b`, with mean demands in any common integer unit. Where the
/// targets are not whole numbers both are rounded down and the leftover unit
/// goes to a store below its cap, or where both are, to store A when `coin`
/// is set. Returns `(units from A to B, units from B to A)`.
pub fn tie_transshipment(
    state_store_a: usize,
    state_store_b: usize,
    demand_store_a: u32,
    demand_store_b: u32,
    max_sa: usize,
    max_sb: usize,
    coin: bool,
) -> (r: (usize, usize))
    requires
        0 < demand_store_a + demand_store_b,
        1 <= max_sa,
        1 <= max_sb,
    ensures
        (r.0 as int, r.1 as int) == tie_moves(
            state_store_a as int,
            state_store_b as int,
            demand_store_a as int,
            demand_store_b as int,
            max_sa as int,
            max_sb as int,
            coin,
        ),
{
    let cap_a: usize = max_sa - 1;
    let cap_b: usize = max_sb - 1;
    let (floor_a, whole_a) = capped_share(demand_store_a, demand_store_b, state_store_a, state_store_b, cap_a);
    let (floor_b, whole_b) = capped_share(demand_store_b, demand_store_a, state_store_a, state_store_b, cap_b);
    let (target_a, target_b): (usize, usize) = if whole_a && whole_b {
        (floor_a, floor_b)
    } else {
        let to_a = if floor_a == cap_a {
            false
        } else if floor_b == cap_b {
            true
        } else {
            coin
        };
        if to_a {
            (floor_a + 1, floor_b)
        } else {
            (floor_a, floor_b + 1)
        }
    };
    let b_to_a: usize = if target_a > state_store_a {
        target_a - state_store_a
    } else {
        0
    };
    let a_to_b: usize = if target_b > state_store_b {
        target_b - state_store_b
    } else {
        0
    };
    (a_to_b, b_to_a)
}

/// Whether [`tie_transshipment`] depends on its coin for these inputs.
pub fn tie_coin_needed(
    state_store_a: usize,
    state_store_b: usize,
    demand_store_a: u32,
    demand_store_b: u32,
    max_sa: usize,
    max_sb: usize,
) -> (r: bool)
    requires
        0 < demand_store_a + demand_store_b,
        1 <= max_sa,
        1 <= max_sb,
    ensures
        r == tie_needs_coin(
            state_store_a as int,
            state_store_b as int,
            demand_store_a as int,
            demand_store_b as int,
            max_sa as int,
            max_sb as int,
        ),
{
    let cap_a: usize = max_sa - 1;
    let cap_b: usize = max_sb - 1;
    let (floor_a, whole_a) = capped_share(demand_store_a, demand_store_b, state_store_a, state_store_b, cap_a);
    let (floor_b, whole_b) = capped_share(demand_store_b, demand_store_a, state_store_a, state_store_b, cap_b);
    !(whole_a && whole_b) && floor_a != cap_a && floor_b != cap_b
}

/// The proportional rebalancing of [`tie_transshipment`], with the coin
/// drawn at random where the targets depend on it. Returns
/// `(units from A to B, units from B to A)`.
pub fn calculate_tie(
    state_store_a: usize,
    state_store_b: usize,
    demand_store_a: u32,
    demand_store_b: u32,
    max_sa: usize,
    max_sb: usize,
) -> (r: (usize, usize))
    requires
        0 < demand_store_a + demand_store_b,
        1 <= max_sa,
        1 <= max_sb,
    ensures
        ({
            let moves = |coin: bool|
                tie_moves(
                    state_store_a as int,
                    state_store_b as int,
                    demand_store_a as int,
                    demand_store_b as int,
                    max_sa as int,
                    max_sb as int,
                    coin,
                );
            &&& (r.0 as int, r.1 as int) == moves(true) || (r.0 as int, r.1 as int) == moves(
                false)
            &&& !tie_needs_coin(
                state_store_a as int,
                state_store_b as int,
                demand_store_a as int,
                demand_store_b as int,
                max_sa as int,
                max_sb as int,
            ) ==> (r.0 as int, r.1 as int) == moves(false)
        }),
{
    let coin = if tie_coin_needed(
        state_store_a,
        state_store_b,
        demand_store_a,
        demand_store_b,
        max_sa,
        max_sb,
    ) {
        rand::random_ratio(1, 2)
    } else {
        false
    };
    tie_transshipment(
        state_store_a,
        state_store_b,
        demand_store_a,
        demand_store_b,
        max_sa,
        max_sb,
        coin,
    )
}

} // verus!
