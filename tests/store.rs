use pallet_kp::document::KPCommentData;
use pallet_kp::error::Error;
use pallet_kp::power::{DocumentPower, PowerWeights};
use pallet_kp::store::KpStore;

fn weights() -> PowerWeights {
    PowerWeights {
        top_weight_product_publish: 40,
        top_weight_document_identify: 30,
        top_weight_document_try: 20,
        top_weight_account_attend: 5,
        top_weight_account_stake: 50,
        document_power_weight_attend: 20,
        document_power_weight_content: 30,
        document_power_weight_judge: 50,
        comment_power_weight_count: 25,
        comment_power_weight_cost: 25,
        comment_power_weight_per_cost: 25,
        comment_power_weight_positive: 25,
        document_publish_weight_params_rate: 30,
        document_publish_weight_params_self_rate: 30,
        document_publish_weight_params_attend_rate: 40,
        document_identify_weight_params_rate: 50,
        document_identify_weight_check_rate: 30,
        document_identify_weight_consistent_rate: 20,
        document_try_weight_bias_rate: 40,
        document_try_weight_true_rate: 40,
        document_try_weight_consistent_rate: 20,
        document_choose_weight_sell_count: 50,
        document_choose_weight_try_count: 50,
        document_model_weight_producer_count: 50,
        document_model_weight_product_count: 50,
        document_cm_power_weight_attend: 30,
        document_cm_power_weight_content: 40,
        document_cm_power_weight_judge: 30,
        cm_power_account_attend: 10,
    }
}

fn seeded() -> KpStore {
    let mut s = KpStore::new(weights(), 10);
    let owner = vec![3u8; 32];
    s.create_product_publish_document(true, true, true, 1, &vec![1], &vec![9], &vec![2], 10, 20, &owner).unwrap();
    s.create_product_identify_document(true, true, 1, &vec![5], &vec![2], 100, 1, 1, 1, &vec![4], &owner).unwrap();
    s
}

#[test]
fn documents_feed_commodity_power() {
    let s = seeded();
    assert_eq!(s.doc_powers[0], DocumentPower { attend: 0, content: 1200, judge: 1000 });
    assert_eq!(s.doc_powers[1], DocumentPower { attend: 0, content: 900, judge: 750 });
    assert_eq!(s.max_goods_price, 100);
    assert_eq!(s.ledger.kp_total_power(), 8850);
    assert_eq!(s.ledger.kp_account_power(&vec![3u8; 32]), 8850);
    let b = s.ledger.find_board(1, &vec![9]).unwrap();
    assert_eq!(s.ledger.boards[b].items()[0].cart_id, vec![4]);
    assert_eq!(s.ledger.boards[b].items()[0].power, 8850);
}

#[test]
fn document_creation_guards() {
    let mut s = seeded();
    let owner = vec![3u8; 32];
    assert_eq!(s.create_product_publish_document(true, true, true, 1, &vec![1], &vec![9], &vec![7], 1, 1, &owner), Err(Error::DocumentAlreadyExisted));
    assert_eq!(s.create_product_publish_document(true, true, true, 1, &vec![8], &vec![9], &vec![2], 1, 1, &owner), Err(Error::ProductAlreadyExisted));
    assert_eq!(s.create_product_publish_document(true, true, false, 1, &vec![8], &vec![9], &vec![7], 1, 1, &owner), Err(Error::ModelNotFoundOrDisabled));
    assert_eq!(s.create_product_identify_document(true, true, 1, &vec![6], &vec![3], 1, 1, 1, 1, &vec![4], &owner), Err(Error::ProductNotFound));
    assert_eq!(s.create_product_identify_document(true, true, 1, &vec![6], &vec![2], 1, 1, 1, 1, &vec![4], &owner), Err(Error::DocumentIdentifyAlreadyExisted));
    assert_eq!(s.create_product_try_document(false, true, 1, &vec![6], &vec![2], 1, 1, 1, 1, &vec![4], &owner), Err(Error::AppIdInvalid));
    assert_eq!(s.create_product_try_document(true, false, 1, &vec![6], &vec![2], 1, 1, 1, 1, &vec![4], &owner), Err(Error::AuthIdentityNotAppKey));
    assert!(s.create_product_try_document(true, true, 1, &vec![6], &vec![2], 1, 1, 1, 1, &vec![4], &owner).is_ok());
    assert_eq!(s.documents.len(), 3);
}

#[test]
fn comment_refreshes_commodity_power() {
    let mut s = seeded();
    let c = KPCommentData { app_id: 1, document_id: vec![5], comment_id: vec![1], comment_fee: 100, comment_trend: 0, sender: vec![5u8; 32] };
    let out = s.create_comment(true, true, false, false, &c).unwrap();
    assert_eq!(out.account_power, 500);
    assert!(out.normal_reward);
    assert_eq!(s.doc_powers[1].attend, 600);
    assert_eq!(s.ledger.kp_total_power(), 9450);
    assert_eq!(s.comment_pools.len(), 1);
    assert!(matches!(s.create_comment(true, true, false, false, &c), Err(Error::CommentAlreadyExisted)));
    let lost = KPCommentData { document_id: vec![42], comment_id: vec![2], ..c };
    assert!(matches!(s.create_comment(true, true, false, false, &lost), Err(Error::DocumentNotFound)));
}

#[test]
fn commodities_are_counted_once() {
    let mut s = seeded();
    let owner = vec![3u8; 32];
    assert_eq!(s.app_commodity_total(1), 1);
    assert_eq!(s.board_commodity_total(1, &vec![9]), 1);
    s.create_product_try_document(true, true, 1, &vec![6], &vec![2], 1, 1, 1, 1, &vec![4], &owner).unwrap();
    assert_eq!(s.app_commodity_total(1), 1);
    s.create_product_try_document(true, true, 1, &vec![7], &vec![2], 1, 1, 1, 1, &vec![8], &owner).unwrap();
    assert_eq!(s.board_commodity_total(1, &vec![]), 2);
    assert_eq!(s.board_commodity_total(1, &vec![9]), 2);
}

#[test]
fn choose_document_records_its_power() {
    let mut s = seeded();
    let owner = vec![3u8; 32];
    assert_eq!(s.create_product_choose_document(true, true, 1, &vec![20], &vec![9], &vec![2], 5, 5, &owner), Ok(5500));
    assert_eq!(s.create_product_choose_document(true, true, 1, &vec![20], &vec![9], &vec![2], 5, 5, &owner), Err(Error::DocumentAlreadyExisted));
    assert_eq!(s.create_model_create_document(true, true, false, 1, &vec![21], &vec![9], &vec![2], 5, 5, &owner), Err(Error::ModelNotFoundOrDisabled));
    assert_eq!(s.create_model_create_document(true, true, true, 1, &vec![21], &vec![9], &vec![2], 5, 5, &owner), Ok(5500));
}

#[test]
fn product_lookups() {
    let s = seeded();
    assert_eq!(s.get_model_id_from_product(1, &vec![2]), Some(vec![9]));
    assert_eq!(s.get_model_id_from_product(1, &vec![3]), None);
    assert_eq!(s.get_pub_docid_from_doc(1, &vec![5]), Some(vec![1]));
    assert_eq!(s.get_pub_docid_from_doc(1, &vec![77]), None);
}

#[test]
fn second_try_document_for_a_commodity_is_rejected() {
    let mut s = seeded();
    let owner = vec![3u8; 32];
    s.create_product_try_document(true, true, 1, &vec![6], &vec![2], 1, 1, 1, 1, &vec![4], &owner).unwrap();
    assert_eq!(s.create_product_try_document(true, true, 1, &vec![7], &vec![2], 1, 1, 1, 1, &vec![4], &owner), Err(Error::DocumentTryAlreadyExisted));
}
