//! States, actions and the bounded state space.
use vstd::prelude::*;

verus! {

/// Stock on hand: warehouse, store A, store B.
#[derive(Clone, Copy, Debug, PartialEq, Eq, Hash, Structural)]
pub struct State {
    pub w: usize,
    pub a: usize,
    pub b: usize,
}

/// A decision for one period: the warehouse's order from the supplier, the
/// two stores' orders from the warehouse, and the units moved from A to B
/// and from B to A.
#[derive(Clone, Copy, Debug, PartialEq, Eq, Hash, Structural)]
pub struct Action {
    pub wh_order: usize,
    pub a_order: usize,
    pub b_order: usize,
    pub ship_a_to_b: usize,
    pub ship_b_to_a: usize,
}

/// The capacities of the three stocking points: a stock level is always
/// strictly below its capacity.
#[derive(Clone, Copy, Debug, PartialEq, Eq, Structural)]
pub struct Capacities {
    pub max_wh: usize,
    pub max_sa: usize,
    pub max_sb: usize,
}

impl State {
    pub fn new(w: usize, a: usize, b: usize) -> (r: State)
        ensures
            r == (State { w, a, b }),
    {
        State { w, a, b }
    }

    /// Row-major order over (w, a, b).
    pub open spec fn precedes(self, other: State) -> bool {
        self.w < other.w || (self.w == other.w && (self.a < other.a || (self.a == other.a
            && self.b < other.b)))
    }
}

impl Action {
    pub fn new(
        wh_order: usize,
        a_order: usize,
        b_order: usize,
        ship_a_to_b: usize,
        ship_b_to_a: usize,
    ) -> (r: Action)
        ensures
            r == (Action { wh_order, a_order, b_order, ship_a_to_b, ship_b_to_a }),
    {
        Action { wh_order, a_order, b_order, ship_a_to_b, ship_b_to_a }
    }

    /// The action that orders nothing and moves nothing.
    pub open spec fn idle() -> Action {
        Action { wh_order: 0, a_order: 0, b_order: 0, ship_a_to_b: 0, ship_b_to_a: 0 }
    }

    pub fn zero() -> (r: Action)
        ensures
            r == Action::idle(),
    {
        Action { wh_order: 0, a_order: 0, b_order: 0, ship_a_to_b: 0, ship_b_to_a: 0 }
    }
}

impl Capacities {
    pub open spec fn in_bounds(self, s: State) -> bool {
        s.w < self.max_wh && s.a < self.max_sa && s.b < self.max_sb
    }

    pub open spec fn size(self) -> int {
        self.max_wh * self.max_sa * self.max_sb
    }

    /// Stock after the transshipment of `act` and before any order arrives.
    pub open spec fn after_shipping(s: State, act: Action) -> (int, int) {
        (s.a - act.ship_a_to_b + act.ship_b_to_a, s.b - act.ship_b_to_a + act.ship_a_to_b)
    }

    /// The feasibility rules of an action taken in state `s`.
    pub open spec fn feasible(self, s: State, act: Action) -> bool {
        let (na, nb) = Self::after_shipping(s, act);
        &&& act.ship_a_to_b == 0 || act.ship_b_to_a == 0
        &&& act.ship_a_to_b <= s.a
        &&& act.ship_b_to_a <= s.b
        &&& nb < self.max_sb
        &&& na < self.max_sa
        &&& act.a_order + na < self.max_sa
        &&& act.b_order + nb < self.max_sb
        &&& act.a_order + act.b_order <= s.w
        &&& act.wh_order + s.w < self.max_wh
    }

    /// Whether `s` lies within the capacities.
    pub fn holds(&self, s: State) -> (r: bool)
        ensures
            r == self.in_bounds(s),
    {
        s.w < self.max_wh && s.a < self.max_sa && s.b < self.max_sb
    }

    /// Whether `act` may be taken in state `s`.
    pub fn is_feasible(&self, s: State, act: Action) -> (r: bool)
        ensures
            r == self.feasible(s, act),
    {
        if act.ship_a_to_b != 0 && act.ship_b_to_a != 0 {
            return false;
        }
        if act.ship_a_to_b > s.a || act.ship_b_to_a > s.b {
            return false;
        }
        if act.ship_b_to_a >= self.max_sa || s.a - act.ship_a_to_b >= self.max_sa - act.ship_b_to_a {
            return false;
        }
        if act.ship_a_to_b >= self.max_sb || s.b - act.ship_b_to_a >= self.max_sb - act.ship_a_to_b {
            return false;
        }
        let na: usize = s.a - act.ship_a_to_b + act.ship_b_to_a;
        let nb: usize = s.b - act.ship_b_to_a + act.ship_a_to_b;
        act.a_order < self.max_sa - na && act.b_order < self.max_sb - nb && act.a_order <= s.w
            && act.b_order <= s.w - act.a_order && s.w < self.max_wh && act.wh_order
            < self.max_wh - s.w
    }

    /// Every state `(w, a, b)` with each level below its capacity, in
    /// row-major order.
    pub fn construct_state_space_iterator(&self) -> (r: Vec<State>)
        requires
            self.size() <= usize::MAX,
        ensures
            r@.len() == self.size(),
            forall|s: State| #![trigger r@.contains(s)] r@.contains(s) <==> self.in_bounds(s),
            forall|i: int, j: int| 0 <= i < j < r@.len() ==> r@[i].precedes(r@[j]),
    {
        let mut v: Vec<State> = Vec::new();
        let ghost sab = self.max_sa * self.max_sb;
        let mut w: usize = 0;
        while w < self.max_wh
            invariant
                w <= self.max_wh,
                self.size() <= usize::MAX,
                sab == self.max_sa * self.max_sb,
                v@.len() == w * sab,
                forall|s: State| #![trigger v@.contains(s)] v@.contains(s) <==> (self.in_bounds(s) && s.w < w),
                forall|i: int, j: int| 0 <= i < j < v@.len() ==> v@[i].precedes(v@[j]),
            decreases self.max_wh - w,
        {
            let mut a: usize = 0;
            while a < self.max_sa
                invariant
                    w < self.max_wh,
                    a <= self.max_sa,
                    self.size() <= usize::MAX,
                    sab == self.max_sa * self.max_sb,
                    v@.len() == w * sab + a * self.max_sb,
                    forall|s: State| #![trigger v@.contains(s)]
                        v@.contains(s) <==> (self.in_bounds(s) && (s.w < w || (s.w == w && s.a
                            < a))),
                    forall|i: int, j: int| 0 <= i < j < v@.len() ==> v@[i].precedes(v@[j]),
                decreases self.max_sa - a,
            {
                let mut b: usize = 0;
                while b < self.max_sb
                    invariant
                        w < self.max_wh,
                        a < self.max_sa,
                        b <= self.max_sb,
                        self.size() <= usize::MAX,
                        sab == self.max_sa * self.max_sb,
                        v@.len() == w * sab + a * self.max_sb + b,
                        forall|s: State| #![trigger v@.contains(s)]
                            v@.contains(s) <==> (self.in_bounds(s) && (s.w < w || (s.w == w && (
                            s.a < a || (s.a == a && s.b < b))))),
                        forall|i: int, j: int| 0 <= i < j < v@.len() ==> v@[i].precedes(v@[j]),
                    decreases self.max_sb - b,
                {
                    proof {
                        lemma_row_major_bound(
                            w as int,
                            a as int,
                            b as int,
                            self.max_wh as int,
                            self.max_sa as int,
                            self.max_sb as int,
                        );
                    }
                    let st = State { w, a, b };
                    let ghost old_v = v@;
                    v.push(st);
                    assert forall|i: int, j: int| 0 <= i < j < v@.len() implies v@[i].precedes(
                        v@[j]) by {
                        if j == old_v.len() {
                            assert(v@[j] == st);
                            assert(v@[i] == old_v[i]);
                            assert(old_v.contains(old_v[i]));
                        } else {
                            assert(v@[j] == old_v[j]);
                            assert(v@[i] == old_v[i]);
                        }
                    }
                    assert forall|t: State| #![trigger v@.contains(t)]
                        v@.contains(t) <==> (self.in_bounds(t) && (t.w < w || (t.w == w && (t.a
                            < a || (t.a == a && t.b < b + 1))))) by {
                        if v@.contains(t) && t != st {
                            let k = choose|k: int| 0 <= k < v@.len() && v@[k] == t;
                            assert(old_v[k] == t);
                        }
                        if t != st && old_v.contains(t) {
                            let k = choose|k: int| 0 <= k < old_v.len() && old_v[k] == t;
                            assert(v@[k] == t);
                        }
                        if t == st {
                            assert(v@[old_v.len() as int] == st);
                        }
                    }
                    b = b + 1;
                }
                proof {
                    assert((a + 1) * self.max_sb == a * self.max_sb + self.max_sb)
                        by (nonlinear_arith);
                }
                a = a + 1;
            }
            proof {
                assert((w + 1) * sab == w * sab + sab) by (nonlinear_arith);
                assert(self.max_sa * self.max_sb == sab);
            }
            w = w + 1;
        }
        proof {
            assert(self.size() == self.max_wh * sab) by (nonlinear_arith)
                requires
                    sab == self.max_sa * self.max_sb,
                    self.size() == self.max_wh * self.max_sa * self.max_sb,
            ;
        }
        v
    }
}

/// The position of `(w, a, b)` in row-major order lies below the size of the
/// space.
pub proof fn lemma_row_major_bound(w: int, a: int, b: int, nw: int, na: int, nb: int)
    requires
        0 <= w < nw,
        0 <= a < na,
        0 <= b < nb,
    ensures
        w * (na * nb) + a * nb + b < nw * na * nb,
{
    assert(a * nb + b < na * nb) by (nonlinear_arith)
        requires
            0 <= a < na,
            0 <= b < nb,
    ;
    assert(w * (na * nb) + na * nb <= nw * na * nb) by (nonlinear_arith)
        requires
            0 <= w < nw,
            0 < na * nb,
    ;
}

} // verus!
