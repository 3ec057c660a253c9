use pallet_kp::aggregate::{compute_commodity_power, CommodityPowerSet, PowerLedger};
use pallet_kp::error::Error;
use pallet_kp::power::DocumentPower;

fn set(p: u64) -> CommodityPowerSet {
    let z = DocumentPower { attend: 0, content: 0, judge: 0 };
    CommodityPowerSet {
        publish: DocumentPower { attend: 1, content: p, judge: 1 },
        identify: z,
        try_power: z,
        owner_action: 2,
        price: 3,
    }
}

fn board_ids(l: &PowerLedger, app: u32, model: &Vec<u8>) -> Vec<Vec<u8>> {
    match l.find_board(app, model) {
        Some(i) => l.boards[i].items().iter().map(|e| e.cart_id.clone()).collect(),
        None => vec![],
    }
}

#[test]
fn composite_power_sums_all_parts() {
    assert_eq!(compute_commodity_power(&set(10)), 17);
}

#[test]
fn reapplying_same_power_keeps_totals() {
    let mut l = PowerLedger::new(10);
    let owner = vec![1u8; 32];
    let model = vec![9u8];
    assert_eq!(l.update_purchase_power(&set(10), 1, &model, &vec![1], &owner), Ok(()));
    assert_eq!(l.kp_total_power(), 17);
    assert_eq!(l.kp_account_power(&owner), 17);
    assert_eq!(l.update_purchase_power(&set(10), 1, &model, &vec![1], &owner), Ok(()));
    assert_eq!(l.kp_total_power(), 17);
    assert_eq!(l.kp_account_power(&owner), 17);
    assert_eq!(board_ids(&l, 1, &model), vec![vec![1]]);
    assert_eq!(board_ids(&l, 1, &vec![]), vec![vec![1]]);
}

#[test]
fn replacing_power_applies_the_difference() {
    let mut l = PowerLedger::new(10);
    let owner = vec![1u8; 32];
    let model = vec![9u8];
    l.update_purchase_power(&set(10), 1, &model, &vec![1], &owner).unwrap();
    l.update_purchase_power(&set(100), 1, &model, &vec![2], &owner).unwrap();
    l.update_purchase_power(&set(4), 1, &model, &vec![1], &owner).unwrap();
    assert_eq!(l.kp_total_power(), 11 + 107);
    assert_eq!(l.kp_account_power(&owner), 118);
    assert_eq!(l.get_purchase_power(1, &vec![1]), 11);
    assert_eq!(board_ids(&l, 1, &model), vec![vec![2], vec![1]]);
}

#[test]
fn overflowing_total_is_rejected_without_effect() {
    let mut l = PowerLedger::new(10);
    let owner = vec![1u8; 32];
    let model = vec![9u8];
    let big = set(u64::MAX - 10);
    assert_eq!(l.update_purchase_power(&big, 1, &model, &vec![1], &owner), Ok(()));
    assert_eq!(
        l.update_purchase_power(&set(100), 1, &model, &vec![2], &owner),
        Err(Error::AddOverflow)
    );
    assert_eq!(l.kp_total_power(), u64::MAX - 3);
    assert_eq!(l.get_purchase_power(1, &vec![2]), 0);
}

#[test]
fn slashed_commodity_ignores_updates() {
    let mut l = PowerLedger::new(10);
    let owner = vec![1u8; 32];
    let model = vec![9u8];
    l.update_purchase_power(&set(10), 1, &model, &vec![1], &owner).unwrap();
    l.update_purchase_power(&set(20), 1, &model, &vec![2], &owner).unwrap();
    assert_eq!(l.democracy_slash_commodity_power(true, 1, &model, &vec![1], &owner), Ok(17));
    assert!(l.is_commodity_in_black_list(1, &vec![1]));
    assert_eq!(l.kp_total_power(), 27);
    assert_eq!(l.kp_account_power(&owner), 27);
    assert_eq!(board_ids(&l, 1, &model), vec![vec![2]]);
    assert_eq!(l.update_purchase_power(&set(50), 1, &model, &vec![1], &owner), Ok(()));
    assert_eq!(l.kp_total_power(), 27);
    assert_eq!(l.get_purchase_power(1, &vec![1]), 0);
    assert_eq!(board_ids(&l, 1, &model), vec![vec![2]]);
    assert_eq!(
        l.democracy_slash_commodity_power(true, 1, &model, &vec![1], &owner),
        Err(Error::CartIdInBlackList)
    );
    assert_eq!(
        l.democracy_slash_commodity_power(false, 1, &model, &vec![2], &owner),
        Err(Error::AppIdInvalid)
    );
}

#[test]
fn clearing_clamps_total_at_zero() {
    let mut l = PowerLedger::new(10);
    let owner = vec![1u8; 32];
    l.update_purchase_power(&set(10), 1, &vec![], &vec![1], &owner).unwrap();
    l.total_power = 5;
    l.clear_purchase_power(1, &vec![1]);
    assert_eq!(l.kp_total_power(), 0);
    assert_eq!(l.get_purchase_power(1, &vec![1]), 0);
}

#[test]
fn slashing_a_powerless_commodity_still_blacklists_it() {
    let mut l = PowerLedger::new(10);
    let owner = vec![1u8; 32];
    assert_eq!(l.democracy_slash_commodity_power(true, 1, &vec![9], &vec![7], &owner), Ok(0));
    assert!(l.is_commodity_in_black_list(1, &vec![7]));
    assert_eq!(l.update_purchase_power(&set(10), 1, &vec![9], &vec![7], &owner), Ok(()));
    assert_eq!(l.kp_total_power(), 0);
}
