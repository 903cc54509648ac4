//! The feasible actions of a state.
use vstd::prelude::*;
use crate::state::{Action, Capacities, State};

verus! {

/// Appending one element keeps every earlier element and adds that one.
pub proof fn lemma_push_contains<T>(v: Seq<T>, x: T)
    ensures
        forall|y: T| #[trigger] v.push(x).contains(y) <==> (v.contains(y) || y == x),
{
    assert forall|y: T| #[trigger] v.push(x).contains(y) <==> (v.contains(y) || y == x) by {
        if v.push(x).contains(y) && y != x {
            let k = choose|k: int| 0 <= k < v.push(x).len() && v.push(x)[k] == y;
            assert(v[k] == y);
        }
        if v.contains(y) {
            let k = choose|k: int| 0 <= k < v.len() && v[k] == y;
            assert(v.push(x)[k] == y);
        }
        if y == x {
            assert(v.push(x)[v.len() as int] == y);
        }
    }
}

/// Appending an element that is not yet present keeps a sequence free of
/// duplicates.
proof fn lemma_push_distinct(v: Seq<Action>, x: Action)
    requires
        v.no_duplicates(),
        !v.contains(x),
    ensures
        v.push(x).no_duplicates(),
{
    assert forall|i: int, j: int| 0 <= i < v.push(x).len() && 0 <= j < v.push(x).len() && i
        != j implies v.push(x)[i] != v.push(x)[j] by {
        if i == v.len() {
            assert(v.contains(v[j]));
        } else if j == v.len() {
            assert(v.contains(v[i]));
        }
    }
}

impl Capacities {
    /// A transshipment in one direction at most that leaves both stores
    /// below capacity.
    pub open spec fn shipping_ok(self, s: State, ship_a_to_b: int, ship_b_to_a: int) -> bool {
        &&& 0 <= ship_a_to_b <= s.a
        &&& 0 <= ship_b_to_a <= s.b
        &&& ship_a_to_b == 0 || ship_b_to_a == 0
        &&& s.b + ship_a_to_b - ship_b_to_a < self.max_sb
        &&& s.a + ship_b_to_a - ship_a_to_b < self.max_sa
    }

    /// Appends every feasible action of `s` with the given transshipment.
    fn push_orders(&self, v: &mut Vec<Action>, s: State, ship_a_to_b: usize, ship_b_to_a: usize)
        requires
            self.in_bounds(s),
            self.shipping_ok(s, ship_a_to_b as int, ship_b_to_a as int),
            old(v)@.no_duplicates(),
            forall|x: Action| #[trigger] old(v)@.contains(x) ==> !(x.ship_a_to_b == ship_a_to_b
                && x.ship_b_to_a == ship_b_to_a),
        ensures
            final(v)@.no_duplicates(),
            forall|x: Action| #![trigger final(v)@.contains(x)]
                final(v)@.contains(x) <==> (old(v)@.contains(x) || (x.ship_a_to_b == ship_a_to_b
                    && x.ship_b_to_a == ship_b_to_a && self.feasible(s, x))),
    {
        let ghost v0 = v@;
        let na: usize = s.a - ship_a_to_b + ship_b_to_a;
        let nb: usize = s.b - ship_b_to_a + ship_a_to_b;
        let wh_room: usize = self.max_wh - s.w;
        let mut oa: usize = 0;
        while oa <= s.w
            invariant
                self.in_bounds(s),
                self.shipping_ok(s, ship_a_to_b as int, ship_b_to_a as int),
                na == s.a - ship_a_to_b + ship_b_to_a,
                nb == s.b - ship_b_to_a + ship_a_to_b,
                wh_room == self.max_wh - s.w,
                oa <= s.w + 1,
                v@.no_duplicates(),
                forall|x: Action| #[trigger] v0.contains(x) ==> !(x.ship_a_to_b == ship_a_to_b
                    && x.ship_b_to_a == ship_b_to_a),
                forall|x: Action| #![trigger v@.contains(x)]
                    v@.contains(x) <==> (v0.contains(x) || (x.ship_a_to_b == ship_a_to_b
                        && x.ship_b_to_a == ship_b_to_a && self.feasible(s, x) && x.a_order
                        < oa)),
            decreases s.w + 1 - oa,
        {
            if oa < self.max_sa - na {
                let mut ob: usize = 0;
                while ob <= s.w
                    invariant
                        self.in_bounds(s),
                        self.shipping_ok(s, ship_a_to_b as int, ship_b_to_a as int),
                        na == s.a - ship_a_to_b + ship_b_to_a,
                        nb == s.b - ship_b_to_a + ship_a_to_b,
                        wh_room == self.max_wh - s.w,
                        oa <= s.w,
                        oa + na < self.max_sa,
                        ob <= s.w + 1,
                        v@.no_duplicates(),
                        forall|x: Action| #[trigger] v0.contains(x) ==> !(x.ship_a_to_b
                            == ship_a_to_b && x.ship_b_to_a == ship_b_to_a),
                        forall|x: Action| #![trigger v@.contains(x)]
                            v@.contains(x) <==> (v0.contains(x) || (x.ship_a_to_b == ship_a_to_b
                                && x.ship_b_to_a == ship_b_to_a && self.feasible(s, x) && (
                            x.a_order < oa || (x.a_order == oa && x.b_order < ob)))),
                    decreases s.w + 1 - ob,
                {
                    if ob < self.max_sb - nb && ob <= s.w - oa {
                        let mut wo: usize = 0;
                        while wo < wh_room
                            invariant
                                self.in_bounds(s),
                                self.shipping_ok(s, ship_a_to_b as int, ship_b_to_a as int),
                                na == s.a - ship_a_to_b + ship_b_to_a,
                                nb == s.b - ship_b_to_a + ship_a_to_b,
                                wh_room == self.max_wh - s.w,
                                oa <= s.w,
                                ob <= s.w,
                                oa + na < self.max_sa,
                                ob + nb < self.max_sb,
                                oa + ob <= s.w,
                                wo <= wh_room,
                                v@.no_duplicates(),
                                forall|x: Action| #[trigger] v0.contains(x) ==> !(x.ship_a_to_b
                                    == ship_a_to_b && x.ship_b_to_a == ship_b_to_a),
                                forall|x: Action| #![trigger v@.contains(x)]
                                    v@.contains(x) <==> (v0.contains(x) || (x.ship_a_to_b
                                        == ship_a_to_b && x.ship_b_to_a == ship_b_to_a
                                        && self.feasible(s, x) && (x.a_order < oa || (x.a_order
                                        == oa && (x.b_order < ob || (x.b_order == ob
                                        && x.wh_order < wo)))))),
                            decreases wh_room - wo,
                        {
                            let act = Action {
                                wh_order: wo,
                                a_order: oa,
                                b_order: ob,
                                ship_a_to_b,
                                ship_b_to_a,
                            };
                            proof {
                                lemma_push_contains(v@, act);
                                lemma_push_distinct(v@, act);
                            }
                            v.push(act);
                            wo = wo + 1;
                        }
                    }
                    ob = ob + 1;
                }
            }
            oa = oa + 1;
        }
    }

    /// Every feasible action of `state`: each transshipment option (none,
    /// then each amount from A to B, then each amount from B to A), and for
    /// each the store orders the warehouse can cover and the warehouse
    /// orders that keep it below capacity.
    pub fn generate_action_space(&self, state: State) -> (r: Vec<Action>)
        requires
            self.in_bounds(state),
        ensures
            forall|x: Action| #![trigger r@.contains(x)]
                r@.contains(x) <==> self.feasible(state, x),
            r@.contains(Action::idle()),
            r@.no_duplicates(),
    {
        let mut v: Vec<Action> = Vec::new();
        self.push_orders(&mut v, state, 0, 0);
        let a_to_b_end: usize = if state.a + 1 < self.max_sb - state.b {
            state.a + 1
        } else {
            self.max_sb - state.b
        };
        let mut i: usize = 1;
        while i < a_to_b_end
            invariant
                self.in_bounds(state),
                a_to_b_end <= state.a + 1,
                a_to_b_end <= self.max_sb - state.b,
                1 <= i,
                i <= a_to_b_end,
                v@.no_duplicates(),
                forall|x: Action| #![trigger v@.contains(x)]
                    v@.contains(x) <==> (self.feasible(state, x) && x.ship_b_to_a == 0 && (
                    x.ship_a_to_b == 0 || x.ship_a_to_b < i)),
            decreases a_to_b_end - i,
        {
            self.push_orders(&mut v, state, i, 0);
            i = i + 1;
        }
        let b_to_a_end: usize = if state.b + 1 < self.max_sa - state.a {
            state.b + 1
        } else {
            self.max_sa - state.a
        };
        let mut k: usize = 1;
        while k < b_to_a_end
            invariant
                self.in_bounds(state),
                a_to_b_end == state.a + 1 || a_to_b_end == self.max_sb - state.b,
                a_to_b_end <= state.a + 1,
                a_to_b_end <= self.max_sb - state.b,
                b_to_a_end <= state.b + 1,
                b_to_a_end <= self.max_sa - state.a,
                1 <= k,
                k <= b_to_a_end,
                v@.no_duplicates(),
                forall|x: Action| #![trigger v@.contains(x)]
                    v@.contains(x) <==> (self.feasible(state, x) && (x.ship_b_to_a == 0 || (
                    x.ship_b_to_a < k))),
            decreases b_to_a_end - k,
        {
            self.push_orders(&mut v, state, 0, k);
            k = k + 1;
        }
        assert(self.feasible(state, Action::idle()));
        v
    }

    /// The feasible actions of every state, listed with their state in
    /// row-major order of the states.
    pub fn construct_action_space(&self) -> (r: Vec<(State, Vec<Action>)>)
        requires
            self.size() <= usize::MAX,
        ensures
            r@.len() == self.size(),
            forall|s: State| #[trigger] self.in_bounds(s) ==> exists|i: int|
                0 <= i < r@.len() && r@[i].0 == s,
            forall|i: int| #![trigger r@[i]] 0 <= i < r@.len() ==> self.in_bounds(r@[i].0),
            forall|i: int, x: Action| #![trigger r@[i].1@.contains(x)] 0 <= i < r@.len() ==> (
            r@[i].1@.contains(x) <==> self.feasible(r@[i].0, x)),
            forall|i: int| 0 <= i < r@.len() ==> (#[trigger] r@[i].1)@.no_duplicates(),
            forall|i: int, j: int| 0 <= i < j < r@.len() ==> r@[i].0.precedes(r@[j].0),
    {
        let states = self.construct_state_space_iterator();
        let mut r: Vec<(State, Vec<Action>)> = Vec::new();
        let mut i: usize = 0;
        while i < states.len()
            invariant
                i <= states@.len(),
                r@.len() == i,
                forall|s: State| #![trigger states@.contains(s)]
                    states@.contains(s) <==> self.in_bounds(s),
                forall|k: int| #![trigger r@[k]] 0 <= k < i ==> r@[k].0 == states@[k],
                forall|k: int, x: Action| #![trigger r@[k].1@.contains(x)] 0 <= k < i ==> (
                r@[k].1@.contains(x) <==> self.feasible(r@[k].0, x)),
                forall|k: int| 0 <= k < i ==> (#[trigger] r@[k].1)@.no_duplicates(),
            decreases states@.len() - i,
        {
            let s = states[i];
            assert(states@.contains(states@[i as int]));
            let acts = self.generate_action_space(s);
            r.push((s, acts));
            i = i + 1;
        }
        assert forall|s: State| #[trigger] self.in_bounds(s) implies exists|k: int|
            0 <= k < r@.len() && r@[k].0 == s by {
            assert(states@.contains(s));
            let k = choose|k: int| 0 <= k < states@.len() && states@[k] == s;
            assert(r@[k].0 == s);
        }
        assert forall|k: int| #![trigger r@[k]] 0 <= k < r@.len() implies self.in_bounds(r@[k].0) by {
            assert(states@.contains(states@[k]));
        }
        assert forall|k: int, j: int| 0 <= k < j < r@.len() implies r@[k].0.precedes(r@[j].0) by {
            assert(r@[k].0 == states@[k]);
            assert(r@[j].0 == states@[j]);
        }
        r
    }
}

} // verus!
