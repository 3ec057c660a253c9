use pallet_kp::board::LeaderBoard;

fn powers(b: &LeaderBoard) -> Vec<u64> {
    b.items().iter().map(|e| e.power).collect()
}

#[test]
fn board_keeps_top_three_of_five() {
    let mut b = LeaderBoard::new(1, vec![], 3);
    let owner = vec![7u8; 32];
    for (i, p) in [10u64, 50, 30, 80, 20].iter().enumerate() {
        b.update(&vec![i as u8], *p, &owner);
    }
    assert_eq!(powers(&b), vec![80, 50, 30]);
}

#[test]
fn board_moves_an_updated_commodity() {
    let mut b = LeaderBoard::new(1, vec![], 5);
    let owner = vec![1u8];
    b.update(&vec![1], 10, &owner);
    b.update(&vec![2], 20, &owner);
    b.update(&vec![1], 30, &owner);
    assert_eq!(powers(&b), vec![30, 20]);
    assert_eq!(b.items()[0].cart_id, vec![1]);
    assert_eq!(b.items()[0].cart_id_hash.len(), 32);
    assert_ne!(b.items()[0].cart_id_hash, vec![1]);
}

#[test]
fn board_unchanged_power_is_a_no_op() {
    let mut b = LeaderBoard::new(1, vec![], 5);
    let owner = vec![1u8];
    b.update(&vec![1], 10, &owner);
    b.update(&vec![2], 10, &owner);
    b.update(&vec![1], 10, &owner);
    assert_eq!(b.items()[0].cart_id, vec![1]);
    assert_eq!(b.items()[1].cart_id, vec![2]);
}

#[test]
fn board_ties_go_after_equal_powers() {
    let mut b = LeaderBoard::new(1, vec![], 5);
    let owner = vec![1u8];
    b.update(&vec![1], 10, &owner);
    b.update(&vec![2], 10, &owner);
    b.update(&vec![3], 10, &owner);
    let ids: Vec<Vec<u8>> = b.items().iter().map(|e| e.cart_id.clone()).collect();
    assert_eq!(ids, vec![vec![1], vec![2], vec![3]]);
}

#[test]
fn board_removal_and_lookup() {
    let mut b = LeaderBoard::new(1, vec![], 5);
    let owner = vec![1u8];
    b.update(&vec![1], 10, &owner);
    b.update(&vec![2], 20, &owner);
    assert_eq!(b.get_leader_item(&vec![1]), Some((1, 10)));
    assert!(b.remove_leader_board_item(&vec![2]));
    assert!(!b.remove_leader_board_item(&vec![2]));
    assert_eq!(powers(&b), vec![10]);
    assert_eq!(b.get_leader_item(&vec![2]), None);
}

#[test]
fn board_of_capacity_zero_stays_empty() {
    let mut b = LeaderBoard::new(1, vec![], 0);
    b.update(&vec![1], 10, &vec![1u8]);
    assert!(b.items().is_empty());
}
