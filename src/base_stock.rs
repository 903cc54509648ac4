//! Order-up-to (base-stock) ordering, with greedy rationing of warehouse
//! stock when it cannot cover both stores.
use vstd::prelude::*;

verus! {

/// Units handed to each store when `n` units are given out one at a time,
/// each to the store whose unmet request is larger (store B on a tie).
pub open spec fn greedy_allocation(n: nat, req_a: int, req_b: int) -> (int, int)
    decreases n,
{
    if n == 0 {
        (0, 0)
    } else if req_a > req_b {
        let rest = greedy_allocation((n - 1) as nat, req_a - 1, req_b);
        (rest.0 + 1, rest.1)
    } else {
        let rest = greedy_allocation((n - 1) as nat, req_a, req_b - 1);
        (rest.0, rest.1 + 1)
    }
}

/// What is left of `target` after `level`, floored at zero.
pub open spec fn shortfall(target: int, level: int) -> int {
    if target > level {
        target - level
    } else {
        0
    }
}

/// The greedy allocation hands out exactly `n` units and, while `n` does
/// not exceed the two requests together, never more than a store asked for.
pub proof fn lemma_greedy_within_requests(n: nat, req_a: int, req_b: int)
    requires
        0 <= req_a,
        0 <= req_b,
        n <= req_a + req_b,
    ensures
        greedy_allocation(n, req_a, req_b).0 + greedy_allocation(n, req_a, req_b).1 == n,
        0 <= greedy_allocation(n, req_a, req_b).0 <= req_a,
        0 <= greedy_allocation(n, req_a, req_b).1 <= req_b,
    decreases n,
{
    if n > 0 {
        if req_a > req_b {
            lemma_greedy_within_requests((n - 1) as nat, req_a - 1, req_b);
        } else {
            lemma_greedy_within_requests((n - 1) as nat, req_a, req_b - 1);
        }
    }
}

/// Splits `wh_state` units of warehouse stock between requests of
/// `sa_request` and `sb_request` units, one unit at a time, each to the store
/// with the larger unmet request (store B on a tie).
pub fn allocate_stock(wh_state: usize, sa_request: usize, sb_request: usize) -> (r: (usize, usize))
    requires
        wh_state <= sa_request + sb_request,
    ensures
        (r.0 as int, r.1 as int) == greedy_allocation(
            wh_state as nat,
            sa_request as int,
            sb_request as int,
        ),
        r.0 + r.1 == wh_state,
        r.0 <= sa_request,
        r.1 <= sb_request,
{
    let mut sa_alloc: usize = 0;
    let mut sb_alloc: usize = 0;
    let mut wh_available: usize = wh_state;
    proof {
        lemma_greedy_within_requests(wh_state as nat, sa_request as int, sb_request as int);
    }
    while wh_available > 0
        invariant
            sa_alloc <= sa_request,
            sb_alloc <= sb_request,
            wh_available + sa_alloc + sb_alloc == wh_state,
            wh_state <= sa_request + sb_request,
            greedy_allocation(wh_state as nat, sa_request as int, sb_request as int) == (
            sa_alloc + greedy_allocation(
                wh_available as nat,
                sa_request - sa_alloc,
                sb_request - sb_alloc,
            ).0,
            sb_alloc + greedy_allocation(
                wh_available as nat,
                sa_request - sa_alloc,
                sb_request - sb_alloc,
            ).1),
        decreases wh_available,
    {
        let current_sa_request = sa_request - sa_alloc;
        let current_sb_request = sb_request - sb_alloc;
        if current_sa_request > current_sb_request {
            sa_alloc = sa_alloc + 1;
        } else {
            sb_alloc = sb_alloc + 1;
        }
        wh_available = wh_available - 1;
    }
    (sa_alloc, sb_alloc)
}

/// Base-stock ordering for state `(w, a, b)`: each store asks for what it
/// lacks of its target `store_bs`; where the warehouse cannot cover both
/// requests, its stock is split by [`allocate_stock`]. The warehouse orders
/// what it lacks of `warehouse_bs` once the stores' requests are taken out.
/// Returns `(warehouse order, store A order, store B order)`.
pub fn regular_base_stock(
    state: (usize, usize, usize),
    warehouse_bs: usize,
    store_bs: (usize, usize),
) -> (r: (usize, usize, usize))
    ensures
        ({
            let want_a = shortfall(store_bs.0 as int, state.1 as int);
            let want_b = shortfall(store_bs.1 as int, state.2 as int);
            &&& r.0 == shortfall(
                warehouse_bs as int,
                shortfall(state.0 as int, want_a + want_b),
            )
            &&& state.0 >= want_a + want_b ==> r.1 == want_a && r.2 == want_b
            &&& state.0 < want_a + want_b ==> (r.1 as int, r.2 as int) == greedy_allocation(
                state.0 as nat,
                want_a,
                want_b,
            )
        }),
{
    let desired_sa: usize = if store_bs.0 > state.1 {
        store_bs.0 - state.1
    } else {
        0
    };
    let desired_sb: usize = if store_bs.1 > state.2 {
        store_bs.1 - state.2
    } else {
        0
    };
    let short = state.0 < desired_sa || state.0 - desired_sa < desired_sb;
    let retained: usize = if short {
        0
    } else {
        state.0 - desired_sa - desired_sb
    };
    let wh_order: usize = if warehouse_bs > retained {
        warehouse_bs - retained
    } else {
        0
    };
    if short {
        let (sa, sb) = allocate_stock(state.0, desired_sa, desired_sb);
        (wh_order, sa, sb)
    } else {
        (wh_order, desired_sa, desired_sb)
    }
}

} // verus!
