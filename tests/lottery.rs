use pallet_kp::board::LeaderBoard;
use pallet_kp::document::{CommentMaxRecord, CommentWeightData};
use pallet_kp::lottery::{binary_search_closet, hit_max_of, leader_board_lottery, CommodityDocs, DocPools};

fn pool(tag: u8, n: u8) -> Vec<CommentWeightData> {
    (0..n)
        .map(|i| CommentWeightData { account: vec![tag, i], position: i as u64 + 1, cash_cost: 10 * (i as u64 + 1) })
        .collect()
}

fn setup() -> (LeaderBoard, Vec<CommodityDocs>) {
    let mut b = LeaderBoard::new(1, vec![], 10);
    b.update(&vec![1], 50, &vec![1u8]);
    b.update(&vec![2], 40, &vec![2u8]);
    let docs = vec![
        CommodityDocs {
            identify: Some(DocPools { pool: pool(1, 10), publish_id: vec![9], publish_pool: pool(9, 5) }),
            try_docs: None,
        },
        CommodityDocs {
            identify: None,
            try_docs: Some(DocPools { pool: pool(2, 3), publish_id: vec![9], publish_pool: pool(9, 5) }),
        },
    ];
    (b, docs)
}

fn max() -> CommentMaxRecord {
    CommentMaxRecord { max_count: 10, max_fee: 100, max_positive: 0, max_unit_fee: 0 }
}

#[test]
fn lottery_is_reproducible() {
    let (b, docs) = setup();
    let seed = [42u8; 32];
    let first = leader_board_lottery(seed, b.items(), 2, 10, &docs, &max()).unwrap();
    let second = leader_board_lottery(seed, b.items(), 2, 10, &docs, &max()).unwrap();
    assert_eq!(first.accounts, second.accounts);
    assert_eq!(first.accounts.len(), 5);
    for (k, a) in first.accounts.iter().enumerate() {
        let tag = if k < 3 { 1 } else if k == 3 { 9 } else { 2 };
        assert_eq!(a[0], tag);
    }
    assert_eq!(first.board.len(), 2);
    assert_eq!(first.board[0].cart_id, vec![1]);
    assert_eq!(first.board[1].power, 40);
}

#[test]
fn lottery_needs_a_board_and_commodities() {
    let (b, docs) = setup();
    assert!(leader_board_lottery([0u8; 32], b.items(), 0, 10, &docs, &max()).is_none());
    let empty = LeaderBoard::new(1, vec![], 10);
    assert!(leader_board_lottery([0u8; 32], empty.items(), 3, 10, &vec![], &max()).is_none());
}

#[test]
fn lottery_takes_a_fifth_but_at_least_five() {
    let (b, docs) = setup();
    let r = leader_board_lottery([1u8; 32], b.items(), 1, 10, &docs, &max()).unwrap();
    assert_eq!(r.board.len(), 1);
    assert_eq!(r.accounts.len(), 4);
}

#[test]
fn closest_search_and_hit_counts() {
    let t = vec![10u32, 20, 20, 40];
    assert_eq!(binary_search_closet(&t, 40), 3);
    assert_eq!(binary_search_closet(&t, 5), 0);
    assert_eq!(binary_search_closet(&t, 30), 3);
    assert_eq!(binary_search_closet(&t, 50), 4);
    assert_eq!(hit_max_of(10), 3);
    assert_eq!(hit_max_of(5), 1);
    assert_eq!(hit_max_of(3), 1);
    assert_eq!(hit_max_of(1000), 100);
    assert_eq!(hit_max_of(0), 0);
}
