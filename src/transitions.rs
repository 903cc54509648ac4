//! What happens to stock within a period: the action is applied, demand
//! arrives, store shortfalls are rationed from the warehouse (store A before
//! store B), and orders arrive for the next period.
use vstd::prelude::*;
use crate::actions::lemma_push_contains;
use crate::base_stock::shortfall;
use crate::state::{Action, Capacities, State};

verus! {

/// One outcome of rationing warehouse stock between the stores' shortfalls:
/// `trials_a` units of store A's shortfall are requested from the warehouse
/// and `delivered_a` of them arrive; then the same for store B against the
/// stock that store A left.
#[derive(Clone, Copy, Debug, PartialEq, Eq, Structural)]
pub struct Rationing {
    pub trials_a: usize,
    pub delivered_a: usize,
    pub trials_b: usize,
    pub delivered_b: usize,
}

pub open spec fn min(x: int, y: int) -> int {
    if x <= y {
        x
    } else {
        y
    }
}

/// Outcomes ordered by units delivered to store A, then to store B.
pub open spec fn rationing_before(x: Rationing, y: Rationing) -> bool {
    x.delivered_a < y.delivered_a || (x.delivered_a == y.delivered_a && x.delivered_b
        < y.delivered_b)
}

/// `r` is a possible outcome of rationing `w` units of warehouse stock
/// against shortfalls `short_a` and `short_b`.
pub open spec fn rationing_ok(w: int, short_a: int, short_b: int, r: Rationing) -> bool {
    &&& r.trials_a == min(short_a, w)
    &&& r.delivered_a <= r.trials_a
    &&& r.trials_b == min(short_b, w - r.delivered_a)
    &&& r.delivered_b <= r.trials_b
}

/// Stock that a location keeps after demand `demand` against `stock`.
pub open spec fn leftover(stock: int, demand: int) -> int {
    shortfall(stock, demand)
}

/// Stock on hand after the transshipment and the store orders of `act`,
/// before demand; the orders themselves arrive a period later.
pub open spec fn post_action(s: State, act: Action) -> State {
    State {
        w: (s.w - act.a_order - act.b_order) as usize,
        a: (s.a - act.ship_a_to_b + act.ship_b_to_a) as usize,
        b: (s.b - act.ship_b_to_a + act.ship_a_to_b) as usize,
    }
}

/// The next period's state from post-action state `p`, once demands
/// `da` and `db` and rationing `r` have played out and the orders of `act`
/// have arrived.
pub open spec fn next_state(p: State, act: Action, da: int, db: int, r: Rationing) -> State {
    State {
        w: (p.w - r.delivered_a - r.delivered_b + act.wh_order) as usize,
        a: (leftover(p.a as int, da) + act.a_order) as usize,
        b: (leftover(p.b as int, db) + act.b_order) as usize,
    }
}

/// The state after the transshipment and store orders of a feasible action.
pub fn post_action_state(caps: &Capacities, state: State, act: Action) -> (r: State)
    requires
        caps.in_bounds(state),
        caps.feasible(state, act),
    ensures
        r == post_action(state, act),
        caps.in_bounds(r),
{
    State {
        w: state.w - act.a_order - act.b_order,
        a: state.a - act.ship_a_to_b + act.ship_b_to_a,
        b: state.b - act.ship_b_to_a + act.ship_a_to_b,
    }
}

/// The part of `demand` that `stock` cannot cover.
pub fn excess(demand: usize, stock: usize) -> (r: usize)
    ensures
        r == shortfall(demand as int, stock as int),
{
    if demand > stock {
        demand - stock
    } else {
        0
    }
}

/// Every outcome of rationing `w` units of warehouse stock against
/// shortfalls `short_a` and `short_b`, store A first, each listed once.
pub fn rationing_outcomes(w: usize, short_a: usize, short_b: usize) -> (r: Vec<Rationing>)
    requires
        w < usize::MAX,
    ensures
        forall|x: Rationing| #![trigger r@.contains(x)]
            r@.contains(x) <==> rationing_ok(w as int, short_a as int, short_b as int, x),
        forall|i: int, j: int| 0 <= i < j < r@.len() ==> rationing_before(r@[i], r@[j]),
{
    let mut v: Vec<Rationing> = Vec::new();
    let trials_a: usize = if short_a <= w {
        short_a
    } else {
        w
    };
    let mut j: usize = 0;
    while j <= trials_a
        invariant
            w < usize::MAX,
            trials_a == min(short_a as int, w as int),
            j <= trials_a + 1,
            forall|x: Rationing| #![trigger v@.contains(x)]
                v@.contains(x) <==> (rationing_ok(w as int, short_a as int, short_b as int, x)
                    && x.delivered_a < j),
            forall|i: int, k: int| 0 <= i < k < v@.len() ==> rationing_before(v@[i], v@[k]),
        decreases trials_a + 1 - j,
    {
        let rest: usize = w - j;
        let trials_b: usize = if short_b <= rest {
            short_b
        } else {
            rest
        };
        let mut k: usize = 0;
        while k <= trials_b
            invariant
                w < usize::MAX,
                trials_a == min(short_a as int, w as int),
                j <= trials_a,
                trials_b == min(short_b as int, w - j),
                k <= trials_b + 1,
                forall|x: Rationing| #![trigger v@.contains(x)]
                    v@.contains(x) <==> (rationing_ok(w as int, short_a as int, short_b as int, x)
                        && (x.delivered_a < j || (x.delivered_a == j && x.delivered_b < k))),
                forall|i: int, m: int| 0 <= i < m < v@.len() ==> rationing_before(v@[i], v@[m]),
            decreases trials_b + 1 - k,
        {
            let x = Rationing { trials_a, delivered_a: j, trials_b, delivered_b: k };
            proof {
                lemma_push_contains(v@, x);
            }
            let ghost old_v = v@;
            v.push(x);
            assert forall|i: int, m: int| 0 <= i < m < v@.len() implies rationing_before(
                v@[i],
                v@[m],
            ) by {
                assert(v@[i] == old_v[i]);
                if m == old_v.len() {
                    assert(old_v.contains(old_v[i]));
                } else {
                    assert(v@[m] == old_v[m]);
                }
            }
            k = k + 1;
        }
        j = j + 1;
    }
    v
}

/// Stock left in the warehouse after rationing.
pub fn warehouse_left(w: usize, short_a: usize, short_b: usize, r: Rationing) -> (res: usize)
    requires
        rationing_ok(w as int, short_a as int, short_b as int, r),
    ensures
        res == w - r.delivered_a - r.delivered_b,
{
    w - r.delivered_a - r.delivered_b
}

/// The next period's state from post-action state `post` after demands
/// `da` and `db` and rationing outcome `r`, once the orders of `act` arrive.
pub fn next_period_state(
    caps: &Capacities,
    state: State,
    act: Action,
    da: usize,
    db: usize,
    r: Rationing,
) -> (res: State)
    requires
        caps.in_bounds(state),
        caps.feasible(state, act),
        rationing_ok(
            post_action(state, act).w as int,
            shortfall(da as int, post_action(state, act).a as int),
            shortfall(db as int, post_action(state, act).b as int),
            r,
        ),
    ensures
        res == next_state(post_action(state, act), act, da as int, db as int, r),
        caps.in_bounds(res),
{
    let post = post_action_state(caps, state, act);
    proof {
        lemma_next_state_in_bounds(*caps, state, act, da as int, db as int, r);
    }
    let keep_a: usize = if post.a > da {
        post.a - da
    } else {
        0
    };
    let keep_b: usize = if post.b > db {
        post.b - db
    } else {
        0
    };
    State {
        w: post.w - r.delivered_a - r.delivered_b + act.wh_order,
        a: keep_a + act.a_order,
        b: keep_b + act.b_order,
    }
}

/// A feasible action leads, from a state within capacity, to a post-action
/// state and to next-period states within capacity, whatever the demand
/// and the rationing: every lookup of the next period's values is defined.
pub proof fn lemma_next_state_in_bounds(
    caps: Capacities,
    s: State,
    act: Action,
    da: int,
    db: int,
    r: Rationing,
)
    requires
        caps.in_bounds(s),
        caps.feasible(s, act),
        0 <= da,
        0 <= db,
        rationing_ok(
            post_action(s, act).w as int,
            shortfall(da, post_action(s, act).a as int),
            shortfall(db, post_action(s, act).b as int),
            r,
        ),
    ensures
        caps.in_bounds(post_action(s, act)),
        caps.in_bounds(next_state(post_action(s, act), act, da, db, r)),
        next_state(post_action(s, act), act, da, db, r).w == post_action(s, act).w
            - r.delivered_a - r.delivered_b + act.wh_order,
        next_state(post_action(s, act), act, da, db, r).a == leftover(
            post_action(s, act).a as int,
            da,
        ) + act.a_order,
        next_state(post_action(s, act), act, da, db, r).b == leftover(
            post_action(s, act).b as int,
            db,
        ) + act.b_order,
{
}

/// In every rationing outcome each store receives at most its shortfall and
/// the two together at most the warehouse stock, so the units held, sent and
/// left unfilled that the stage cost weighs are all non-negative counts.
pub proof fn lemma_rationing_counts(w: int, short_a: int, short_b: int, r: Rationing)
    requires
        0 <= w,
        0 <= short_a,
        0 <= short_b,
        rationing_ok(w, short_a, short_b, r),
    ensures
        r.delivered_a <= short_a,
        r.delivered_b <= short_b,
        r.delivered_a + r.delivered_b <= w,
        short_a - r.delivered_a >= 0,
        short_b - r.delivered_b >= 0,
        w - r.delivered_a - r.delivered_b >= 0,
{
}

/// With an empty warehouse no unit is rationed, so the warehouse holds
/// nothing after demand: its expected holding cost is zero.
pub proof fn lemma_empty_warehouse_keeps_nothing(short_a: int, short_b: int, r: Rationing)
    requires
        0 <= short_a,
        0 <= short_b,
        rationing_ok(0, short_a, short_b, r),
    ensures
        r.delivered_a == 0,
        r.delivered_b == 0,
        0 - r.delivered_a - r.delivered_b == 0,
{
}

} // verus!
