use inventory_mdp::base_stock::{allocate_stock, regular_base_stock};
use inventory_mdp::rebalance::{choose_donor, donor_shipment, transfer_count, warehouse_order};
use inventory_mdp::tie::{calculate_tie, tie_coin_needed, tie_transshipment};

#[test]
fn allocation_favours_larger_request() {
    // Warehouse stock 3, A wants 5, B wants 1: A's unmet request stays the larger.
    assert_eq!(allocate_stock(3, 5, 1), (3, 0));
}

#[test]
fn allocation_ties_go_to_store_b() {
    assert_eq!(allocate_stock(1, 2, 2), (0, 1));
    assert_eq!(allocate_stock(3, 2, 2), (1, 2));
    assert_eq!(allocate_stock(4, 2, 2), (2, 2));
}

#[test]
fn allocation_of_nothing() {
    assert_eq!(allocate_stock(0, 4, 7), (0, 0));
}

#[test]
fn allocation_alternates_after_equalising() {
    // B first reaches A's level (2 units), then the units alternate B, A, B.
    assert_eq!(allocate_stock(5, 1, 3), (1, 4));
}

#[test]
fn base_stock_when_warehouse_covers_both() {
    // Stores lack 2 and 1 units of their targets; 7 units stay in the warehouse.
    assert_eq!(regular_base_stock((10, 5, 6), 14, (7, 7)), (7, 2, 1));
}

#[test]
fn base_stock_rations_when_warehouse_is_short() {
    // A lacks 4, B lacks 2, the warehouse holds 2: both go to A.
    assert_eq!(regular_base_stock((2, 3, 5), 14, (7, 7)), (14, 2, 0));
}

#[test]
fn base_stock_stores_above_target_order_nothing() {
    assert_eq!(regular_base_stock((3, 9, 8), 2, (7, 7)), (0, 0, 0));
}

#[test]
fn tie_whole_targets_move_three_units() {
    assert_eq!(tie_transshipment(2, 8, 5, 5, 10, 10, true), (0, 3));
    assert_eq!(tie_transshipment(2, 8, 5, 5, 10, 10, false), (0, 3));
    assert!(!tie_coin_needed(2, 8, 5, 5, 10, 10));
    assert_eq!(calculate_tie(2, 8, 5, 5, 10, 10), (0, 3));
}

#[test]
fn tie_fractional_targets_use_the_coin() {
    // Shares of 1.5 each: the leftover unit goes to A on heads, to B on tails.
    assert!(tie_coin_needed(0, 3, 1, 1, 10, 10));
    assert_eq!(tie_transshipment(0, 3, 1, 1, 10, 10, true), (0, 2));
    assert_eq!(tie_transshipment(0, 3, 1, 1, 10, 10, false), (0, 1));
    let r = calculate_tie(0, 3, 1, 1, 10, 10);
    assert!(r == (0, 2) || r == (0, 1));
}

#[test]
fn tie_capped_targets() {
    // Shares of 9 each meet the top level of 9: nothing moves.
    assert_eq!(tie_transshipment(9, 9, 1, 1, 10, 10, true), (0, 0));
    // A's share of 6 is capped at 4 and the leftover goes to B.
    assert!(!tie_coin_needed(1, 5, 1, 0, 5, 10));
    assert_eq!(tie_transshipment(1, 5, 1, 0, 5, 10, true), (0, 3));
}

#[test]
fn tie_unequal_means() {
    // Means 1 and 3 over 8 units: targets 2 and 6.
    assert_eq!(tie_transshipment(6, 2, 1, 3, 10, 10, false), (4, 0));
}

#[test]
fn donor_rules() {
    assert!(!choose_donor(0, 4, 10, 10, true));
    assert!(choose_donor(3, 0, 10, 10, false));
    assert!(choose_donor(9, 4, 10, 10, false));
    assert!(!choose_donor(4, 9, 10, 10, true));
    assert!(choose_donor(4, 5, 10, 10, true));
    assert!(!choose_donor(4, 5, 10, 10, false));
}

#[test]
fn transfer_stops_at_rejected_unit() {
    assert_eq!(transfer_count(5, 1, 10, 0, &vec![true, true, false, true, true]), 2);
}

#[test]
fn transfer_stops_at_empty_donor() {
    assert_eq!(transfer_count(2, 1, 10, 0, &vec![true, true, true]), 2);
    assert_eq!(transfer_count(2, 1, 10, 1, &vec![true, true, true]), 1);
}

#[test]
fn transfer_stops_at_full_receiver() {
    assert_eq!(transfer_count(8, 7, 10, 0, &vec![true, true, true]), 2);
    assert_eq!(transfer_count(8, 9, 10, 0, &vec![]), 0);
}

#[test]
fn shipment_direction() {
    assert_eq!(donor_shipment(true, 3), (3, 0));
    assert_eq!(donor_shipment(false, 2), (0, 2));
}

#[test]
fn warehouse_order_nets_pickups() {
    assert_eq!(warehouse_order(14, 10, 3), 7);
    assert_eq!(warehouse_order(14, 2, 5), 14);
    assert_eq!(warehouse_order(4, 10, 1), 0);
}
