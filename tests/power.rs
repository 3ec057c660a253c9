use pallet_kp::document::{
    comment_reward_amount, process_comment_power, process_document_content_power,
    process_publish_doc_content_refer_power, update_comment_max, CommentMaxRecord,
    KPCommentAccountRecord, KPCommentData,
};
use pallet_kp::power::{
    compute_doc_trend_power, compute_judge_power, compute_price_power,
    compute_publish_product_content_power, update_max, CommentTrend, DocumentMaxParams,
    DocumentPower, DocumentSpecificData, DocumentType, KPDocumentData, KPProductIdentifyData,
    KPProductPublishData, PowerWeights,
};

pub fn weights() -> PowerWeights {
    PowerWeights {
        top_weight_product_publish: 40,
        top_weight_document_identify: 30,
        top_weight_document_try: 20,
        top_weight_account_attend: 5,
        top_weight_account_stake: 50,
        document_power_weight_attend: 20,
        document_power_weight_content: 30,
        document_power_weight_judge: 50,
        comment_power_weight_count: 25,
        comment_power_weight_cost: 25,
        comment_power_weight_per_cost: 25,
        comment_power_weight_positive: 25,
        document_publish_weight_params_rate: 30,
        document_publish_weight_params_self_rate: 30,
        document_publish_weight_params_attend_rate: 40,
        document_identify_weight_params_rate: 50,
        document_identify_weight_check_rate: 30,
        document_identify_weight_consistent_rate: 20,
        document_try_weight_bias_rate: 40,
        document_try_weight_true_rate: 40,
        document_try_weight_consistent_rate: 20,
        document_choose_weight_sell_count: 50,
        document_choose_weight_try_count: 50,
        document_model_weight_producer_count: 50,
        document_model_weight_product_count: 50,
        document_cm_power_weight_attend: 30,
        document_cm_power_weight_content: 40,
        document_cm_power_weight_judge: 30,
        cm_power_account_attend: 10,
    }
}

fn publish_doc(para: u64, selfr: u64, refer: u64) -> KPDocumentData {
    KPDocumentData {
        app_id: 1,
        document_id: vec![1],
        model_id: vec![9],
        product_id: vec![2],
        owner: vec![3; 32],
        document_type: DocumentType::ProductPublish,
        document_data: DocumentSpecificData::ProductPublish(KPProductPublishData {
            para_issue_rate: para,
            self_issue_rate: selfr,
            refer_count: refer,
        }),
        comment_count: 0,
        comment_total_fee: 0,
        comment_positive_count: 0,
        expert_trend: CommentTrend::Empty,
        platform_trend: CommentTrend::Empty,
    }
}

#[test]
fn running_max_rises_and_normalizes_to_one() {
    let mut max = 0u64;
    assert_eq!(update_max(5, &mut max), 1_000_000);
    assert_eq!(max, 5);
    assert_eq!(update_max(3, &mut max), 600_000);
    assert_eq!(max, 5);
    assert_eq!(update_max(0, &mut max), 0);
    assert_eq!(update_max(8, &mut max), 1_000_000);
    assert_eq!(max, 8);
}

#[test]
fn trend_table() {
    let (p, n, e) = (CommentTrend::Positive, CommentTrend::Negative, CommentTrend::Empty);
    assert_eq!(compute_doc_trend_power(p, p), 1_000_000);
    assert_eq!(compute_doc_trend_power(n, n), 0);
    assert_eq!(compute_doc_trend_power(e, e), 500_000);
    assert_eq!(compute_doc_trend_power(p, n), 375_000);
    assert_eq!(compute_doc_trend_power(e, p), 750_000);
    assert_eq!(compute_doc_trend_power(n, e), 250_000);
}

#[test]
fn publish_content_formula() {
    let w = weights();
    assert_eq!(compute_publish_product_content_power(&w, 1_000_000, 1_000_000, 1_000_000), 1200);
    assert_eq!(compute_publish_product_content_power(&w, 500_000, 0, 0), 180);
}

#[test]
fn judge_and_price_formulas() {
    let w = weights();
    assert_eq!(compute_judge_power(1_000_000, 40, 50), 2000);
    assert_eq!(compute_judge_power(375_000, 40, 50), 750);
    assert_eq!(compute_price_power(&w, 50, 100), 2500);
    assert_eq!(compute_price_power(&w, 50, 0), 0);
    assert_eq!(compute_price_power(&w, 1u64 << 32, (1u64 << 32) + 1), 5000);
}

#[test]
fn new_publish_document_power() {
    let w = weights();
    let mut maxima = DocumentMaxParams::new();
    let mut max_price = 0u64;
    let p = process_document_content_power(&publish_doc(10, 20, 0), &w, &mut maxima, &mut max_price);
    assert_eq!(p, DocumentPower { attend: 0, content: 720, judge: 1000 });
    assert_eq!(maxima.publish.para_issue_rate, 10);
    assert_eq!(maxima.publish.self_issue_rate, 20);
    let p2 = process_document_content_power(&publish_doc(5, 20, 0), &w, &mut maxima, &mut max_price);
    assert_eq!(p2.content, 540);
    assert_eq!(max_price, 0);
}

#[test]
fn identify_document_raises_price_max() {
    let w = weights();
    let mut maxima = DocumentMaxParams::new();
    let mut max_price = 10u64;
    let mut doc = publish_doc(0, 0, 0);
    doc.document_type = DocumentType::ProductIdentify;
    doc.document_data = DocumentSpecificData::ProductIdentify(KPProductIdentifyData {
        goods_price: 99,
        ident_rate: 1,
        ident_consistence: 1,
        seller_consistence: 1,
        cart_id: vec![4],
    });
    let p = process_document_content_power(&doc, &w, &mut maxima, &mut max_price);
    assert_eq!(max_price, 99);
    assert_eq!(p.content, 900);
    assert_eq!(p.judge, 750);
}

#[test]
fn refer_count_recomputes_publish_power() {
    let w = weights();
    let mut maxima = DocumentMaxParams::new();
    let mut pdoc = publish_doc(10, 10, 0);
    let mut power = DocumentPower { attend: 3, content: 0, judge: 4 };
    process_publish_doc_content_refer_power(&mut pdoc, &mut power, 1, &w, &mut maxima);
    match &pdoc.document_data {
        DocumentSpecificData::ProductPublish(d) => assert_eq!(d.refer_count, 1),
        _ => panic!("kind changed"),
    }
    assert_eq!(maxima.publish.refer_count, 1);
    assert_eq!(power, DocumentPower { attend: 3, content: 1200, judge: 4 });
}

#[test]
fn comment_max_update_reports_change() {
    let mut m = CommentMaxRecord::new();
    assert!(update_comment_max(&mut m, 1, 2, 0, 2));
    assert!(!update_comment_max(&mut m, 1, 1, 0, 1));
    assert_eq!(m, CommentMaxRecord { max_count: 1, max_fee: 2, max_positive: 0, max_unit_fee: 2 });
}

#[test]
fn comment_power_of_first_expert_comment() {
    let w = weights();
    let mut doc = publish_doc(1, 1, 0);
    let mut power = DocumentPower { attend: 0, content: 5, judge: 0 };
    let mut account = KPCommentAccountRecord { count: 0, fees: 0, positive_count: 0 };
    let mut account_max = CommentMaxRecord::new();
    let mut doc_max = CommentMaxRecord::new();
    let mut base = None;
    let comment = KPCommentData {
        app_id: 1,
        document_id: vec![1],
        comment_id: vec![8],
        comment_fee: 100,
        comment_trend: 0,
        sender: vec![5; 32],
    };
    let out = process_comment_power(
        &comment, &mut doc, &mut power, &mut account, &mut account_max, &mut doc_max, &mut base,
        true, false, &w,
    );
    assert_eq!(account, KPCommentAccountRecord { count: 1, fees: 100, positive_count: 1 });
    assert_eq!(doc.comment_count, 1);
    assert_eq!(doc.expert_trend, CommentTrend::Positive);
    assert_eq!(doc.platform_trend, CommentTrend::Empty);
    assert_eq!(out.account_power, 500);
    assert_eq!(out.expert_rewards, 1);
    assert!(!out.normal_reward);
    assert_eq!(out.pool_item.position, 1);
    assert_eq!(base, Some(doc_max));
    assert_eq!(power, DocumentPower { attend: 800, content: 5, judge: 1500 });
}

#[test]
fn comment_reward_in_whole_units() {
    assert_eq!(comment_reward_amount(10, 1234), 1_200_000_000_000);
    assert_eq!(comment_reward_amount(150, 100), 1_000_000_000_000);
}
