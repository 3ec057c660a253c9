use pallet_kp::error::Error;
use pallet_kp::lottery::create_power_leader_board;
use pallet_kp::model::{ModelRegistry, ModelStatus};
use pallet_kp::power::{CommentTrend, DocumentType};

#[test]
fn models_need_a_known_type_and_room() {
    let mut r = ModelRegistry::new();
    let owner = vec![1u8; 32];
    assert_eq!(r.create_model(true, true, 1, &vec![1], &vec![], &vec![], 7, &owner, 10, 100, 0), Err(Error::ModelTypeInvalid));
    assert_eq!(r.create_commodity_type(7, &vec![b'x']), Ok(()));
    assert_eq!(r.create_commodity_type(3, &vec![b'y']), Ok(()));
    assert_eq!(r.create_commodity_type(7, &vec![b'z']), Err(Error::CommodityTypeExisted));
    let ids: Vec<u32> = r.commodity_types.iter().map(|t| t.type_id).collect();
    assert_eq!(ids, vec![3, 7]);
    r.set_app_model_total(1, 1);
    assert_eq!(r.create_model(true, true, 1, &vec![1], &vec![], &vec![], 7, &owner, 10, 5, 0), Err(Error::BalanceNotEnough));
    assert_eq!(r.create_model(true, true, 1, &vec![1], &vec![], &vec![], 7, &owner, 10, 100, 0), Ok(true));
    assert!(r.is_valid_model(1, &vec![1]));
    assert_eq!(r.create_model(true, true, 1, &vec![1], &vec![], &vec![], 7, &owner, 10, 100, 0), Err(Error::ModelAlreadyExisted));
    assert_eq!(r.create_model(true, true, 1, &vec![2], &vec![], &vec![], 7, &owner, 10, 100, 0), Err(Error::ModelOverSizeLimit));
    r.set_app_model_total(1, 0);
    assert_eq!(r.create_model(true, true, 1, &vec![2], &vec![], &vec![], 7, &owner, 10, 100, 0), Ok(false));
    assert_eq!(r.create_model(false, true, 1, &vec![3], &vec![], &vec![], 7, &owner, 10, 100, 0), Err(Error::AppIdInvalid));
    assert_eq!(r.add_model_deposit(true, 1, &vec![1], 5, 100), Ok(15));
    assert_eq!(r.add_model_deposit(false, 1, &vec![1], 5, 100), Err(Error::NotModelCreator));
}

#[test]
fn lottery_records_are_spaced() {
    assert_eq!(create_power_leader_board(true, None, 5, 10), Ok(()));
    assert_eq!(create_power_leader_board(true, Some(5), 15, 10), Err(Error::LeaderBoardCreateNotPermit));
    assert_eq!(create_power_leader_board(true, Some(5), 16, 10), Ok(()));
    assert_eq!(create_power_leader_board(false, None, 16, 10), Err(Error::AppIdInvalid));
}

#[test]
fn model_handed_to_admin() {
    let mut r = ModelRegistry::new();
    let owner = vec![1u8; 32];
    let admin = vec![2u8; 32];
    r.create_commodity_type(7, &vec![]).unwrap();
    r.create_model(true, true, 1, &vec![1], &vec![], &vec![], 7, &owner, 10, 100, 0).unwrap();
    assert_eq!(r.model_owner_release(true, true, 1, &vec![1], &admin, 5), Err(Error::BalanceNotEnough));
    assert_eq!(r.model_owner_release(false, true, 1, &vec![1], &admin, 50), Err(Error::NotModelCreator));
    assert_eq!(r.model_owner_release(true, true, 1, &vec![9], &admin, 50), Err(Error::ModelNotFoundOrDisabled));
    assert_eq!(r.model_owner_release(true, true, 1, &vec![1], &admin, 50), Ok(10));
    assert_eq!(r.models[0].owner, admin);
}

#[test]
fn byte_conversions() {
    assert_eq!(ModelStatus::from_u8(1), ModelStatus::DISABLED);
    assert_eq!(ModelStatus::from_u8(7), ModelStatus::ENABLED);
    assert_eq!(DocumentType::from_u8(3), DocumentType::ProductChoose);
    assert_eq!(DocumentType::from_u8(9), DocumentType::Unknown);
    assert_eq!(DocumentType::ModelCreate.code(), 4);
    assert_eq!(DocumentType::Unknown.code(), 5);
    assert_eq!(CommentTrend::from_u8(0), CommentTrend::Positive);
    assert_eq!(CommentTrend::from_u8(2), CommentTrend::Empty);
}
