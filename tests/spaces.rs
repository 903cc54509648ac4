use inventory_mdp::policy_table::PolicyTable;
use inventory_mdp::schedule::decision_periods;
use inventory_mdp::state::{Action, Capacities, State};
use inventory_mdp::transitions::{
    excess, next_period_state, post_action_state, rationing_outcomes, warehouse_left, Rationing,
};

fn caps(max_wh: usize, max_sa: usize, max_sb: usize) -> Capacities {
    Capacities { max_wh, max_sa, max_sb }
}

fn feasible(c: &Capacities, s: &State, x: &Action) -> bool {
    if x.ship_a_to_b > 0 && x.ship_b_to_a > 0 {
        return false;
    }
    if x.ship_a_to_b > s.a || x.ship_b_to_a > s.b {
        return false;
    }
    let na = s.a - x.ship_a_to_b + x.ship_b_to_a;
    let nb = s.b - x.ship_b_to_a + x.ship_a_to_b;
    na < c.max_sa
        && nb < c.max_sb
        && x.a_order + na < c.max_sa
        && x.b_order + nb < c.max_sb
        && x.a_order + x.b_order <= s.w
        && x.wh_order + s.w < c.max_wh
}

#[test]
fn state_space_is_row_major() {
    let space = caps(2, 2, 3).construct_state_space_iterator();
    assert_eq!(space.len(), 12);
    assert_eq!(space[0], State::new(0, 0, 0));
    assert_eq!(space[1], State::new(0, 0, 1));
    assert_eq!(space[3], State::new(0, 1, 0));
    assert_eq!(space[6], State::new(1, 0, 0));
    assert_eq!(space[11], State::new(1, 1, 2));
}

#[test]
fn action_space_of_empty_state() {
    let c = caps(20, 10, 10);
    let acts = c.generate_action_space(State::new(0, 0, 0));
    // Nothing to ship or hand out: only the 20 warehouse orders.
    assert_eq!(acts.len(), 20);
    assert!(acts.contains(&Action::zero()));
    assert!(acts.iter().all(|x| x.a_order == 0 && x.b_order == 0 && x.wh_order < 20));
}

#[test]
fn action_space_counts_and_feasibility() {
    let c = caps(3, 3, 3);
    let s = State::new(1, 1, 0);
    let acts = c.generate_action_space(s);
    assert_eq!(acts.len(), 12);
    assert!(acts.contains(&Action::zero()));
    assert!(acts.contains(&Action::new(1, 0, 1, 1, 0)));
    assert!(!acts.contains(&Action::new(2, 0, 1, 1, 0)));
    assert!(!acts.contains(&Action::new(0, 0, 0, 0, 1)));
    for x in &acts {
        assert!(feasible(&c, &s, x));
    }
    // Every feasible action with small components is listed.
    for wh in 0..4 {
        for oa in 0..3 {
            for ob in 0..3 {
                for ab in 0..3 {
                    for ba in 0..3 {
                        let x = Action::new(wh, oa, ob, ab, ba);
                        assert_eq!(acts.contains(&x), feasible(&c, &s, &x));
                    }
                }
            }
        }
    }
}

#[test]
fn every_state_offers_the_idle_action() {
    let c = caps(4, 3, 3);
    let all = c.construct_action_space();
    assert_eq!(all.len(), 36);
    for (s, acts) in &all {
        assert!(acts.contains(&Action::zero()));
        for x in acts {
            assert!(feasible(&c, s, x));
        }
    }
}

#[test]
fn empty_warehouse_rations_nothing() {
    let outs = rationing_outcomes(0, 3, 2);
    assert_eq!(outs.len(), 1);
    let r = outs[0];
    assert_eq!(r, Rationing { trials_a: 0, delivered_a: 0, trials_b: 0, delivered_b: 0 });
    assert_eq!(warehouse_left(0, 3, 2, r), 0);
}

#[test]
fn store_b_rations_what_store_a_left() {
    let outs = rationing_outcomes(2, 1, 5);
    assert_eq!(outs.len(), 5);
    assert!(outs.contains(&Rationing { trials_a: 1, delivered_a: 0, trials_b: 2, delivered_b: 2 }));
    assert!(outs.contains(&Rationing { trials_a: 1, delivered_a: 1, trials_b: 1, delivered_b: 1 }));
    assert!(!outs.contains(&Rationing { trials_a: 1, delivered_a: 1, trials_b: 2, delivered_b: 1 }));
    assert_eq!(warehouse_left(2, 1, 5, outs[4]), 0);
}

#[test]
fn no_shortfall_no_rationing() {
    let outs = rationing_outcomes(7, 0, 0);
    assert_eq!(outs, vec![Rationing { trials_a: 0, delivered_a: 0, trials_b: 0, delivered_b: 0 }]);
    assert_eq!(warehouse_left(7, 0, 0, outs[0]), 7);
}

#[test]
fn excess_demand() {
    assert_eq!(excess(5, 3), 2);
    assert_eq!(excess(3, 5), 0);
}

#[test]
fn post_action_and_next_state() {
    let c = caps(20, 10, 10);
    let s = State::new(5, 3, 2);
    let act = Action::new(4, 1, 2, 0, 0);
    assert_eq!(post_action_state(&c, s, act), State::new(2, 3, 2));
    let r = Rationing { trials_a: 2, delivered_a: 1, trials_b: 0, delivered_b: 0 };
    assert_eq!(next_period_state(&c, s, act, 5, 1, r), State::new(5, 1, 3));
}

#[test]
fn transshipment_moves_stock() {
    let c = caps(20, 10, 10);
    let s = State::new(5, 3, 2);
    let act = Action::new(0, 0, 0, 0, 2);
    assert_eq!(post_action_state(&c, s, act), State::new(5, 5, 0));
}

#[test]
fn single_period_makes_no_decision() {
    assert!(decision_periods(1).is_empty());
    assert!(decision_periods(0).is_empty());
}

#[test]
fn periods_run_backwards() {
    assert_eq!(decision_periods(4), vec![3, 2, 1]);
}

#[test]
fn policy_table_replays_recorded_actions() {
    let c = caps(3, 2, 2);
    let mut table = PolicyTable::new(c);
    let s = State::new(2, 1, 0);
    let other = State::new(2, 0, 1);
    let act = Action::new(0, 1, 1, 0, 0);
    assert_eq!(table.get(1, s), None);
    assert_eq!(table.action_at(1, s), Action::zero());
    table.record(1, s, act);
    assert_eq!(table.get(1, s), Some(act));
    assert_eq!(table.action_at(1, s), act);
    // Neither another period nor another state sees the entry.
    assert_eq!(table.get(2, s), None);
    assert_eq!(table.get(1, other), None);
    assert_eq!(table.get(0, State::new(0, 0, 0)), None);
    // A state outside the capacities has nothing recorded.
    assert_eq!(table.get(1, State::new(3, 0, 0)), None);
}

#[test]
fn policy_table_keeps_the_latest_action() {
    let mut table = PolicyTable::new(caps(4, 3, 3));
    let s = State::new(3, 2, 2);
    table.record(5, s, Action::new(0, 0, 0, 1, 0));
    table.record(5, s, Action::new(0, 0, 0, 0, 1));
    assert_eq!(table.action_at(5, s), Action::new(0, 0, 0, 0, 1));
    assert_eq!(table.action_at(4, s), Action::zero());
}
