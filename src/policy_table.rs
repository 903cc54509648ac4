//! The actions chosen in each period, recorded per state and replayed.
use std::collections::HashMap;
use vstd::prelude::*;
use vstd::arithmetic::div_mod::lemma_fundamental_div_mod_converse;
use crate::state::{Action, Capacities, State};

verus! {

broadcast use vstd::std_specs::hash::group_hash_axioms;

/// The position of `s` in the row-major order of the state space.
pub open spec fn state_index(caps: Capacities, s: State) -> int {
    s.w * (caps.max_sa * caps.max_sb) + s.a * caps.max_sb + s.b
}

/// The slot of `(t, s)`: one block of the size of the state space per
/// period.
pub open spec fn slot(caps: Capacities, t: int, s: State) -> int {
    t * caps.size() + state_index(caps, s)
}

/// Distinct `(period, state)` pairs within capacity have distinct slots.
pub proof fn lemma_slot_injective(caps: Capacities, t1: int, s1: State, t2: int, s2: State)
    requires
        0 <= t1,
        0 <= t2,
        caps.in_bounds(s1),
        caps.in_bounds(s2),
        slot(caps, t1, s1) == slot(caps, t2, s2),
    ensures
        t1 == t2,
        s1 == s2,
{
    let sab = caps.max_sa * caps.max_sb;
    let nb = caps.max_sb as int;
    lemma_index_below_size(caps, s1);
    lemma_index_below_size(caps, s2);
    assert(caps.size() == caps.max_wh * sab) by (nonlinear_arith)
        requires
            sab == caps.max_sa * caps.max_sb,
            caps.size() == caps.max_wh * caps.max_sa * caps.max_sb,
    ;
    let x = slot(caps, t1, s1);
    lemma_fundamental_div_mod_converse(x, caps.size(), t1, state_index(caps, s1));
    lemma_fundamental_div_mod_converse(x, caps.size(), t2, state_index(caps, s2));
    let idx = state_index(caps, s1);
    assert(s1.a * nb + s1.b < sab && s2.a * nb + s2.b < sab) by (nonlinear_arith)
        requires
            s1.a < caps.max_sa,
            s2.a < caps.max_sa,
            s1.b < nb,
            s2.b < nb,
            sab == caps.max_sa * nb,
    ;
    lemma_fundamental_div_mod_converse(idx, sab, s1.w as int, s1.a * nb + s1.b);
    lemma_fundamental_div_mod_converse(idx, sab, s2.w as int, s2.a * nb + s2.b);
    let rest = s1.a * nb + s1.b;
    lemma_fundamental_div_mod_converse(rest, nb, s1.a as int, s1.b as int);
    lemma_fundamental_div_mod_converse(rest, nb, s2.a as int, s2.b as int);
}

/// The row-major position of a state within capacity lies below the size of
/// the space.
pub proof fn lemma_index_below_size(caps: Capacities, s: State)
    requires
        caps.in_bounds(s),
    ensures
        0 <= state_index(caps, s) < caps.size(),
{
    let sab = caps.max_sa * caps.max_sb;
    assert(0 <= s.a * caps.max_sb + s.b < sab) by (nonlinear_arith)
        requires
            s.a < caps.max_sa,
            s.b < caps.max_sb,
            sab == caps.max_sa * caps.max_sb,
    ;
    assert(0 <= s.w * sab) by (nonlinear_arith)
        requires
            0 <= sab,
    ;
    assert(s.w * sab + sab <= caps.max_wh * sab) by (nonlinear_arith)
        requires
            s.w < caps.max_wh,
            0 <= sab,
    ;
    assert(caps.max_wh * sab == caps.size()) by (nonlinear_arith)
        requires
            sab == caps.max_sa * caps.max_sb,
    ;
}

/// The size of the space is the warehouse capacity times the size of a
/// store layer, which it bounds whenever the warehouse has room.
proof fn lemma_size_factors(caps: Capacities)
    ensures
        caps.size() == caps.max_wh * (caps.max_sa * caps.max_sb),
        caps.max_wh == 0 ==> caps.size() == 0,
        caps.max_wh > 0 ==> caps.max_sa * caps.max_sb <= caps.size(),
{
    let sab = caps.max_sa * caps.max_sb;
    assert(caps.size() == caps.max_wh * sab) by (nonlinear_arith)
        requires
            sab == caps.max_sa * caps.max_sb,
            caps.size() == caps.max_wh * caps.max_sa * caps.max_sb,
    ;
    assert(caps.max_wh > 0 ==> sab <= caps.max_wh * sab) by (nonlinear_arith)
        requires
            0 <= sab,
    ;
}

/// Actions recorded per period and state.
pub struct PolicyTable {
    caps: Capacities,
    entries: HashMap<usize, Action>,
}

impl PolicyTable {
    pub closed spec fn capacities(self) -> Capacities {
        self.caps
    }

    /// The table's state space fits the machine's indices.
    pub closed spec fn wf(self) -> bool {
        self.caps.size() <= usize::MAX
    }

    /// The action recorded for state `s` in period `t`, if any.
    pub closed spec fn recorded(self, t: int, s: State) -> Option<Action> {
        let k = slot(self.caps, t, s);
        if 0 <= t && self.caps.in_bounds(s) && k <= usize::MAX && self.entries@.contains_key(
            k as usize,
        ) {
            Some(self.entries@[k as usize])
        } else {
            None
        }
    }

    /// An empty table for the states within `caps`.
    pub fn new(caps: Capacities) -> (r: PolicyTable)
        requires
            caps.size() <= usize::MAX,
        ensures
            r.wf(),
            r.capacities() == caps,
            forall|t: int, s: State| #[trigger] r.recorded(t, s) is None,
    {
        PolicyTable { caps, entries: HashMap::new() }
    }

    fn index_of(&self, s: State) -> (r: usize)
        requires
            self.wf(),
            self.caps.in_bounds(s),
        ensures
            r == state_index(self.caps, s),
            r < self.caps.size(),
    {
        proof {
            lemma_index_below_size(self.caps, s);
            lemma_size_factors(self.caps);
        }
        let sab = self.caps.max_sa * self.caps.max_sb;
        proof {
            assert(s.w * sab <= state_index(self.caps, s)) by (nonlinear_arith)
                requires
                    sab == self.caps.max_sa * self.caps.max_sb,
                    state_index(self.caps, s) == s.w * sab + s.a * self.caps.max_sb + s.b,
            ;
        }
        s.w * sab + s.a * self.caps.max_sb + s.b
    }

    fn size(&self) -> (r: usize)
        requires
            self.wf(),
        ensures
            r == self.caps.size(),
    {
        proof {
            lemma_size_factors(self.caps);
        }
        if self.caps.max_wh == 0 {
            0
        } else {
            self.caps.max_wh * (self.caps.max_sa * self.caps.max_sb)
        }
    }

    /// The slot of `(t, s)`, where it fits in a `usize`.
    fn slot_of(&self, t: usize, s: State) -> (r: Option<usize>)
        requires
            self.wf(),
            self.caps.in_bounds(s),
        ensures
            r matches Some(k) ==> k == slot(self.caps, t as int, s),
            r is None ==> slot(self.caps, t as int, s) > usize::MAX,
    {
        let size = self.size();
        let idx = self.index_of(s);
        match t.checked_mul(size) {
            Some(base) => match base.checked_add(idx) {
                Some(k) => Some(k),
                None => None,
            },
            None => {
                proof {
                    assert(t * size <= t * size + idx);
                }
                None
            },
        }
    }

    /// Records `act` for state `s` in period `t`.
    pub fn record(&mut self, t: usize, s: State, act: Action)
        requires
            old(self).wf(),
            old(self).capacities().in_bounds(s),
            slot(old(self).capacities(), t as int, s) <= usize::MAX,
        ensures
            final(self).wf(),
            final(self).capacities() == old(self).capacities(),
            final(self).recorded(t as int, s) == Some(act),
            forall|t2: int, s2: State|
                (t2 != t || s2 != s) ==> #[trigger] final(self).recorded(t2, s2) == old(
                    self,
                ).recorded(t2, s2),
    {
        let k = match self.slot_of(t, s) {
            Some(k) => k,
            None => {
                return;
            },
        };
        self.entries.insert(k, act);
        proof {
            assert forall|t2: int, s2: State|
                (t2 != t || s2 != s) implies #[trigger] self.recorded(t2, s2) == old(
                self,
            ).recorded(t2, s2) by {
                if 0 <= t2 && self.caps.in_bounds(s2) && slot(self.caps, t2, s2) == k {
                    lemma_slot_injective(self.caps, t as int, s, t2, s2);
                }
            }
        }
    }

    /// The action recorded for state `s` in period `t`, if any.
    pub fn get(&self, t: usize, s: State) -> (r: Option<Action>)
        requires
            self.wf(),
        ensures
            r == self.recorded(t as int, s),
    {
        if !self.caps.holds(s) {
            return None;
        }
        match self.slot_of(t, s) {
            Some(k) => match self.entries.get(&k) {
                Some(a) => Some(*a),
                None => None,
            },
            None => None,
        }
    }

    /// The action to replay for state `s` in period `t`: the recorded one,
    /// or the idle action where none was recorded.
    pub fn action_at(&self, t: usize, s: State) -> (r: Action)
        requires
            self.wf(),
        ensures
            r == match self.recorded(t as int, s) {
                Some(a) => a,
                None => Action::idle(),
            },
    {
        match self.get(t, s) {
            Some(a) => a,
            None => Action::zero(),
        }
    }
}

} // verus!
