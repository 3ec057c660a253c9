//! Power of documents: content and judge power when a document is created,
//! attendance and judge power when it is commented on.

use vstd::prelude::*;
use crate::arith::{permill_from_rational, lemma_from_rational_bounded, per_from_rational, PERMILL_ONE};
use crate::power::{
    choose_content_spec, compute_choose_content_power, compute_doc_trend_power,
    compute_identify_content_power, compute_judge_power, compute_model_content_power,
    compute_publish_product_content_power, compute_try_content_power, identify_content_spec,
    judge_spec, model_content_spec, normalized, publish_content_spec, rates_wf, running_max,
    trend_power_spec, try_content_spec, update_max, AccountId, CommentRates, DocumentMaxParams,
    DocumentPower, DocumentSpecificData, KPDocumentData, KPModelCreateDataMax, KPProductChooseDataMax,
    KPProductIdentifyRateMax, KPProductPublishRateMax, KPProductTryRateMax, PowerSize,
    PowerWeights, KPProductPublishData, CommentTrend, DocumentType, trend_of, attend_spec,
    compute_attend_power, pct,
};

verus! {

/// Maxima of comment aggregates of one app (per document or per account).
#[derive(Clone, Copy, Debug, PartialEq, Eq, Structural)]
pub struct CommentMaxRecord {
    pub max_count: PowerSize,
    pub max_fee: PowerSize,
    pub max_positive: PowerSize,
    pub max_unit_fee: PowerSize,
}

impl CommentMaxRecord {
    /// Maxima before any comment.
    pub fn new() -> (r: CommentMaxRecord)
        ensures
            r == (CommentMaxRecord { max_count: 0, max_fee: 0, max_positive: 0, max_unit_fee: 0 }),
    {
        CommentMaxRecord { max_count: 0, max_fee: 0, max_positive: 0, max_unit_fee: 0 }
    }
}

/// Comment aggregates of one account in one app.
#[derive(Clone, Copy, Debug, PartialEq, Eq, Structural)]
pub struct KPCommentAccountRecord {
    pub count: PowerSize,
    pub fees: PowerSize,
    pub positive_count: PowerSize,
}

/// A comment on a document.
#[derive(Clone, Debug)]
pub struct KPCommentData {
    pub app_id: u32,
    pub document_id: Vec<u8>,
    pub comment_id: Vec<u8>,
    pub comment_fee: PowerSize,
    pub comment_trend: u8,
    pub sender: AccountId,
}

/// Maxima after a record of aggregates was seen.
pub open spec fn comment_max_after(
    m: CommentMaxRecord,
    count: u64,
    fees: u64,
    positive: u64,
    unit_fee: u64,
) -> CommentMaxRecord {
    CommentMaxRecord {
        max_count: if count > m.max_count { count } else { m.max_count },
        max_fee: if fees > m.max_fee { fees } else { m.max_fee },
        max_positive: if positive > m.max_positive { positive } else { m.max_positive },
        max_unit_fee: if unit_fee > m.max_unit_fee { unit_fee } else { m.max_unit_fee },
    }
}

/// Raises each maximum that an aggregate exceeds; tells whether any was raised.
pub fn update_comment_max(
    max: &mut CommentMaxRecord,
    count: PowerSize,
    fees: PowerSize,
    positive: PowerSize,
    unit_fee: PowerSize,
) -> (r: bool)
    ensures
        *final(max) == comment_max_after(*old(max), count, fees, positive, unit_fee),
        r == (*final(max) != *old(max)),
{
    let mut is_updated = false;
    if count > max.max_count {
        max.max_count = count;
        is_updated = true;
    }
    if fees > max.max_fee {
        max.max_fee = fees;
        is_updated = true;
    }
    if positive > max.max_positive {
        max.max_positive = positive;
        is_updated = true;
    }
    if unit_fee > max.max_unit_fee {
        max.max_unit_fee = unit_fee;
        is_updated = true;
    }
    is_updated
}

/// The fractions of a record of aggregates against maxima; the positive
/// fraction is zero while no positive comment was seen.
pub open spec fn comment_rates_spec(
    m: CommentMaxRecord,
    count: u64,
    fee: u64,
    positive: u64,
    unit_fee: u64,
) -> CommentRates {
    CommentRates {
        count: per_from_rational(1_000_000, count as int, m.max_count as int) as u32,
        cost: per_from_rational(1_000_000, fee as int, m.max_fee as int) as u32,
        unit_cost: per_from_rational(
            1_000_000,
            unit_fee as int,
            m.max_unit_fee as int,
        ) as u32,
        positive: if m.max_positive > 0 {
            per_from_rational(
                1_000_000,
                positive as int,
                m.max_positive as int,
            ) as u32
        } else {
            0
        },
    }
}

fn fraction_of(p: u64, q: u64) -> (r: u32)
    ensures
        r == per_from_rational(1_000_000, p as int, q as int),
        r <= PERMILL_ONE,
{
    proof {
        lemma_from_rational_bounded(PERMILL_ONE as int, p as int, q as int);
    }
    permill_from_rational(p, q)
}

/// The fractions of a record of comment aggregates against its maxima.
pub fn compute_comment_action_rate(
    max: &CommentMaxRecord,
    count: PowerSize,
    fee: PowerSize,
    positive: PowerSize,
    unit_fee: PowerSize,
) -> (r: CommentRates)
    ensures
        r == comment_rates_spec(*max, count, fee, positive, unit_fee),
        rates_wf(r),
{
    let count_rate = fraction_of(count, max.max_count);
    let cost_rate = fraction_of(fee, max.max_fee);
    let unit_cost_rate = fraction_of(unit_fee, max.max_unit_fee);
    let mut positive_rate: u32 = 0;
    if max.max_positive > 0 {
        positive_rate = fraction_of(positive, max.max_positive);
    }
    CommentRates { count: count_rate, cost: cost_rate, unit_cost: unit_cost_rate, positive: positive_rate }
}

/// Sets each part of a stored document power whose new value is not zero.
pub open spec fn power_update_spec(p: DocumentPower, attend: u64, judge: u64, content: u64) -> DocumentPower {
    DocumentPower {
        attend: if attend > 0 { attend } else { p.attend },
        content: if content > 0 { content } else { p.content },
        judge: if judge > 0 { judge } else { p.judge },
    }
}

/// Overwrites the parts of a document power that are given as non-zero.
pub fn update_document_power(
    power: &mut DocumentPower,
    attend_power: PowerSize,
    judge_power: PowerSize,
    content_power: PowerSize,
)
    ensures
        *final(power) == power_update_spec(*old(power), attend_power, judge_power, content_power),
{
    if attend_power > 0 {
        power.attend = attend_power;
    }
    if judge_power > 0 {
        power.judge = judge_power;
    }
    if content_power > 0 {
        power.content = content_power;
    }
}

/// The top weight that a document kind carries in judge power.
pub open spec fn judge_top_weight(w: PowerWeights, t: DocumentSpecificData) -> int {
    match t {
        DocumentSpecificData::ProductPublish(_) => w.top_weight_product_publish as int,
        DocumentSpecificData::ProductIdentify(_) => w.top_weight_document_identify as int,
        DocumentSpecificData::ProductTry(_) => w.top_weight_document_try as int,
        _ => 100,
    }
}

/// The document weight that a document kind carries in judge power.
pub open spec fn judge_doc_weight(w: PowerWeights, t: DocumentSpecificData) -> int {
    match t {
        DocumentSpecificData::ProductPublish(_) => w.document_power_weight_judge as int,
        DocumentSpecificData::ProductIdentify(_) => w.document_power_weight_judge as int,
        DocumentSpecificData::ProductTry(_) => w.document_power_weight_judge as int,
        _ => w.document_cm_power_weight_judge as int,
    }
}

/// Content power of a new document against the maxima seen before it.
pub open spec fn content_power_spec(w: PowerWeights, d: DocumentSpecificData, m: DocumentMaxParams) -> int {
    match d {
        DocumentSpecificData::ProductPublish(x) => publish_content_spec(
            w,
            normalized(x.para_issue_rate as int, m.publish.para_issue_rate as int),
            normalized(x.self_issue_rate as int, m.publish.self_issue_rate as int),
            normalized(x.refer_count as int, m.publish.refer_count as int),
        ),
        DocumentSpecificData::ProductIdentify(x) => identify_content_spec(
            w,
            normalized(x.ident_rate as int, m.identify.ident_rate as int),
            normalized(x.ident_consistence as int, m.identify.ident_consistence as int),
            normalized(x.seller_consistence as int, m.identify.seller_consistence as int),
        ),
        DocumentSpecificData::ProductTry(x) => try_content_spec(
            w,
            normalized(x.offset_rate as int, m.try_rate.offset_rate as int),
            normalized(x.true_rate as int, m.try_rate.true_rate as int),
            normalized(x.seller_consistence as int, m.try_rate.seller_consistence as int),
        ),
        DocumentSpecificData::ProductChoose(x) => choose_content_spec(
            w,
            normalized(x.sell_count as int, m.choose.sell_count as int),
            normalized(x.try_count as int, m.choose.try_count as int),
        ),
        DocumentSpecificData::ModelCreate(x) => model_content_spec(
            w,
            normalized(x.producer_count as int, m.model.producer_count as int),
            normalized(x.product_count as int, m.model.product_count as int),
        ),
    }
}

/// The maxima after a new document's metrics were seen.
pub open spec fn maxima_after(d: DocumentSpecificData, m: DocumentMaxParams) -> DocumentMaxParams {
    match d {
        DocumentSpecificData::ProductPublish(x) => DocumentMaxParams {
            publish: KPProductPublishRateMax {
                para_issue_rate: running_max(x.para_issue_rate as int, m.publish.para_issue_rate as int) as u64,
                self_issue_rate: running_max(x.self_issue_rate as int, m.publish.self_issue_rate as int) as u64,
                refer_count: running_max(x.refer_count as int, m.publish.refer_count as int) as u64,
            },
            ..m
        },
        DocumentSpecificData::ProductIdentify(x) => DocumentMaxParams {
            identify: KPProductIdentifyRateMax {
                ident_rate: running_max(x.ident_rate as int, m.identify.ident_rate as int) as u64,
                ident_consistence: running_max(x.ident_consistence as int, m.identify.ident_consistence as int) as u64,
                seller_consistence: running_max(x.seller_consistence as int, m.identify.seller_consistence as int) as u64,
            },
            ..m
        },
        DocumentSpecificData::ProductTry(x) => DocumentMaxParams {
            try_rate: KPProductTryRateMax {
                offset_rate: running_max(x.offset_rate as int, m.try_rate.offset_rate as int) as u64,
                true_rate: running_max(x.true_rate as int, m.try_rate.true_rate as int) as u64,
                seller_consistence: running_max(x.seller_consistence as int, m.try_rate.seller_consistence as int) as u64,
            },
            ..m
        },
        DocumentSpecificData::ProductChoose(x) => DocumentMaxParams {
            choose: KPProductChooseDataMax {
                sell_count: running_max(x.sell_count as int, m.choose.sell_count as int) as u64,
                try_count: running_max(x.try_count as int, m.choose.try_count as int) as u64,
            },
            ..m
        },
        DocumentSpecificData::ModelCreate(x) => DocumentMaxParams {
            model: KPModelCreateDataMax {
                producer_count: running_max(x.producer_count as int, m.model.producer_count as int) as u64,
                product_count: running_max(x.product_count as int, m.model.product_count as int) as u64,
            },
            ..m
        },
    }
}

/// The highest goods price after a new document was seen.
pub open spec fn max_price_after(d: DocumentSpecificData, max: u64) -> u64 {
    match d {
        DocumentSpecificData::ProductIdentify(x) => running_max(x.goods_price as int, max as int) as u64,
        DocumentSpecificData::ProductTry(x) => running_max(x.goods_price as int, max as int) as u64,
        _ => max,
    }
}

/// Raises the highest goods price seen.
pub fn update_max_goods_price(max_goods_price: &mut PowerSize, price: PowerSize)
    ensures
        *final(max_goods_price) == running_max(price as int, *old(max_goods_price) as int),
{
    if price > *max_goods_price {
        *max_goods_price = price;
    }
}

/// The power of a new document: no attendance yet, content from its
/// metrics against the app's running maxima (which take the metrics in),
/// judge from its verdicts. An identify or try document also raises the
/// highest goods price seen.
pub fn process_document_content_power(
    doc: &KPDocumentData,
    w: &PowerWeights,
    maxima: &mut DocumentMaxParams,
    max_goods_price: &mut PowerSize,
) -> (r: DocumentPower)
    ensures
        r.attend == 0,
        r.content == content_power_spec(*w, doc.document_data, *old(maxima)),
        r.judge == judge_spec(
            trend_power_spec(doc.expert_trend, doc.platform_trend),
            judge_top_weight(*w, doc.document_data),
            judge_doc_weight(*w, doc.document_data),
        ),
        *final(maxima) == maxima_after(doc.document_data, *old(maxima)),
        *final(max_goods_price) == max_price_after(doc.document_data, *old(max_goods_price)),
{
    let trend = compute_doc_trend_power(doc.expert_trend, doc.platform_trend);
    match &doc.document_data {
        DocumentSpecificData::ProductPublish(data) => {
            let a = update_max(data.para_issue_rate, &mut maxima.publish.para_issue_rate);
            let b = update_max(data.self_issue_rate, &mut maxima.publish.self_issue_rate);
            let c = update_max(data.refer_count, &mut maxima.publish.refer_count);
            let content = compute_publish_product_content_power(w, a, b, c);
            let judge = compute_judge_power(
                trend,
                w.top_weight_product_publish as u32,
                w.document_power_weight_judge,
            );
            DocumentPower { attend: 0, content, judge }
        },
        DocumentSpecificData::ProductIdentify(data) => {
            let a = update_max(data.ident_rate, &mut maxima.identify.ident_rate);
            let b = update_max(data.ident_consistence, &mut maxima.identify.ident_consistence);
            let c = update_max(data.seller_consistence, &mut maxima.identify.seller_consistence);
            let content = compute_identify_content_power(w, a, b, c);
            let judge = compute_judge_power(
                trend,
                w.top_weight_document_identify as u32,
                w.document_power_weight_judge,
            );
            update_max_goods_price(max_goods_price, data.goods_price);
            DocumentPower { attend: 0, content, judge }
        },
        DocumentSpecificData::ProductTry(data) => {
            let a = update_max(data.offset_rate, &mut maxima.try_rate.offset_rate);
            let b = update_max(data.true_rate, &mut maxima.try_rate.true_rate);
            let c = update_max(data.seller_consistence, &mut maxima.try_rate.seller_consistence);
            let content = compute_try_content_power(w, a, b, c);
            let judge = compute_judge_power(
                trend,
                w.top_weight_document_try as u32,
                w.document_power_weight_judge,
            );
            update_max_goods_price(max_goods_price, data.goods_price);
            DocumentPower { attend: 0, content, judge }
        },
        DocumentSpecificData::ProductChoose(data) => {
            let a = update_max(data.sell_count, &mut maxima.choose.sell_count);
            let b = update_max(data.try_count, &mut maxima.choose.try_count);
            let content = compute_choose_content_power(w, a, b);
            let judge = compute_judge_power(trend, 100, w.document_cm_power_weight_judge);
            DocumentPower { attend: 0, content, judge }
        },
        DocumentSpecificData::ModelCreate(data) => {
            let a = update_max(data.producer_count, &mut maxima.model.producer_count);
            let b = update_max(data.product_count, &mut maxima.model.product_count);
            let content = compute_model_content_power(w, a, b);
            let judge = compute_judge_power(trend, 100, w.document_cm_power_weight_judge);
            DocumentPower { attend: 0, content, judge }
        },
    }
}

/// A publish document whose refer count grew by `n`; other kinds unchanged.
pub open spec fn referred_doc(d: KPDocumentData, n: u64) -> KPDocumentData {
    match d.document_data {
        DocumentSpecificData::ProductPublish(x) => KPDocumentData {
            document_data: DocumentSpecificData::ProductPublish(
                KPProductPublishData { refer_count: (x.refer_count + n) as u64, ..x },
            ),
            ..d
        },
        _ => d,
    }
}

/// Whether a document is a publish document.
pub open spec fn is_publish(d: DocumentSpecificData) -> bool {
    d is ProductPublish
}

/// Counts `n` new references to a publish document and recomputes its
/// content power against the app's running maxima; a document of another
/// kind is left as it is.
pub fn process_publish_doc_content_refer_power(
    publish_doc: &mut KPDocumentData,
    publish_power: &mut DocumentPower,
    refer_increased: PowerSize,
    w: &PowerWeights,
    maxima: &mut DocumentMaxParams,
)
    requires
        match old(publish_doc).document_data {
            DocumentSpecificData::ProductPublish(x) => x.refer_count + refer_increased <= u64::MAX,
            _ => true,
        },
    ensures
        *final(publish_doc) == referred_doc(*old(publish_doc), refer_increased),
        is_publish(old(publish_doc).document_data) ==> {
            &&& *final(maxima) == maxima_after(final(publish_doc).document_data, *old(maxima))
            &&& *final(publish_power) == power_update_spec(
                *old(publish_power),
                0,
                0,
                content_power_spec(*w, final(publish_doc).document_data, *old(maxima)) as u64,
            )
        },
        !is_publish(old(publish_doc).document_data) ==> {
            &&& *final(maxima) == *old(maxima)
            &&& *final(publish_power) == *old(publish_power)
        },
{
    let mut data = match &publish_doc.document_data {
        DocumentSpecificData::ProductPublish(data) => *data,
        _ => {
            return ;
        },
    };
    refer_publish_data(&mut data, publish_power, refer_increased, w, maxima);
    publish_doc.document_data = DocumentSpecificData::ProductPublish(data);
}

/// Counts `n` new references in a publish document's metrics and
/// recomputes its content power against the app's running maxima.
pub fn refer_publish_data(
    data: &mut KPProductPublishData,
    publish_power: &mut DocumentPower,
    refer_increased: PowerSize,
    w: &PowerWeights,
    maxima: &mut DocumentMaxParams,
)
    requires
        old(data).refer_count + refer_increased <= u64::MAX,
    ensures
        *final(data) == (KPProductPublishData {
            refer_count: (old(data).refer_count + refer_increased) as u64,
            ..*old(data)
        }),
        *final(maxima) == maxima_after(DocumentSpecificData::ProductPublish(*final(data)), *old(maxima)),
        *final(publish_power) == power_update_spec(
            *old(publish_power),
            0,
            0,
            content_power_spec(*w, DocumentSpecificData::ProductPublish(*final(data)), *old(maxima)) as u64,
        ),
{
    data.refer_count = data.refer_count + refer_increased;
    let a = update_max(data.para_issue_rate, &mut maxima.publish.para_issue_rate);
    let b = update_max(data.self_issue_rate, &mut maxima.publish.self_issue_rate);
    let c = update_max(data.refer_count, &mut maxima.publish.refer_count);
    let content = compute_publish_product_content_power(w, a, b, c);
    update_document_power(publish_power, 0, 0, content);
}

/// One commenter in a document's comment pool.
#[derive(Clone, Debug)]
pub struct CommentWeightData {
    pub account: AccountId,
    pub position: u64,
    pub cash_cost: PowerSize,
}

/// What a comment earns: its sender's attendance power in the app, its
/// entry in the document's comment pool, and the rewards owed to the
/// sender (one at the expert rate per verdict it set, or one at the normal
/// rate when it set none).
pub struct CommentPowerOutcome {
    pub account_power: PowerSize,
    pub pool_item: CommentWeightData,
    pub expert_rewards: u8,
    pub normal_reward: bool,
}

/// Account attendance, document attendance, document top and judge
/// weights of a document kind.
pub open spec fn comment_weights(w: PowerWeights, t: DocumentType) -> (int, int, int, int) {
    match t {
        DocumentType::ProductPublish => (
            w.top_weight_account_attend as int,
            w.document_power_weight_attend as int,
            w.top_weight_product_publish as int,
            w.document_power_weight_judge as int,
        ),
        DocumentType::ProductIdentify => (
            w.top_weight_account_attend as int,
            w.document_power_weight_attend as int,
            w.top_weight_document_identify as int,
            w.document_power_weight_judge as int,
        ),
        DocumentType::ProductTry => (
            w.top_weight_account_attend as int,
            w.document_power_weight_attend as int,
            w.top_weight_document_try as int,
            w.document_power_weight_judge as int,
        ),
        DocumentType::ProductChoose | DocumentType::ModelCreate => (
            w.cm_power_account_attend as int,
            w.document_cm_power_weight_attend as int,
            100,
            w.document_cm_power_weight_judge as int,
        ),
        DocumentType::Unknown => (0, 0, 0, 0),
    }
}

fn comment_weights_of(w: &PowerWeights, t: DocumentType) -> (r: (u32, u32, u32, u8))
    ensures
        (r.0 as int, r.1 as int, r.2 as int, r.3 as int) == comment_weights(*w, t),
{
    match t {
        DocumentType::ProductPublish => (
            w.top_weight_account_attend as u32,
            w.document_power_weight_attend as u32,
            w.top_weight_product_publish as u32,
            w.document_power_weight_judge,
        ),
        DocumentType::ProductIdentify => (
            w.top_weight_account_attend as u32,
            w.document_power_weight_attend as u32,
            w.top_weight_document_identify as u32,
            w.document_power_weight_judge,
        ),
        DocumentType::ProductTry => (
            w.top_weight_account_attend as u32,
            w.document_power_weight_attend as u32,
            w.top_weight_document_try as u32,
            w.document_power_weight_judge,
        ),
        DocumentType::ProductChoose | DocumentType::ModelCreate => (
            w.cm_power_account_attend as u32,
            w.document_cm_power_weight_attend as u32,
            100,
            w.document_cm_power_weight_judge,
        ),
        DocumentType::Unknown => (0, 0, 0, 0),
    }
}

/// An account's comment aggregates after one more comment.
pub open spec fn account_after_comment(a: KPCommentAccountRecord, c: KPCommentData) -> KPCommentAccountRecord {
    KPCommentAccountRecord {
        count: (a.count + 1) as u64,
        fees: (a.fees + c.comment_fee) as u64,
        positive_count: if c.comment_trend == 0 { (a.positive_count + 1) as u64 } else { a.positive_count },
    }
}

/// Whether a comment sets the expert verdict of a document.
pub open spec fn sets_expert(d: KPDocumentData, is_expert: bool) -> bool {
    d.expert_trend == CommentTrend::Empty && is_expert
}

/// Whether a comment sets the platform verdict of a document.
pub open spec fn sets_platform(d: KPDocumentData, is_platform: bool) -> bool {
    d.platform_trend == CommentTrend::Empty && is_platform
}

/// A document after one more comment: its aggregates grow, and a verdict
/// still open takes the comment's trend when the sender is an expert of
/// the model (resp. a platform member of the app).
pub open spec fn doc_after_comment(
    d: KPDocumentData,
    c: KPCommentData,
    is_expert: bool,
    is_platform: bool,
) -> KPDocumentData {
    KPDocumentData {
        comment_count: (d.comment_count + 1) as u64,
        comment_total_fee: (d.comment_total_fee + c.comment_fee) as u64,
        comment_positive_count: if c.comment_trend == 0 {
            (d.comment_positive_count + 1) as u64
        } else {
            d.comment_positive_count
        },
        expert_trend: if sets_expert(d, is_expert) { trend_of(c.comment_trend) } else { d.expert_trend },
        platform_trend: if sets_platform(d, is_platform) {
            trend_of(c.comment_trend)
        } else {
            d.platform_trend
        },
        ..d
    }
}

/// Comparison base of a document's comment power after a comment: the
/// app-wide maxima at its first comment, then raised by its own aggregates.
pub open spec fn compare_base_after(
    base: Option<CommentMaxRecord>,
    doc_max: CommentMaxRecord,
    d: KPDocumentData,
) -> CommentMaxRecord {
    match base {
        None => doc_max,
        Some(b) => comment_max_after(
            b,
            d.comment_count,
            d.comment_total_fee,
            d.comment_positive_count,
            (d.comment_total_fee / d.comment_count) as u64,
        ),
    }
}

/// The sender's attendance power after a comment.
pub open spec fn comment_account_power(
    w: PowerWeights,
    c: KPCommentData,
    account0: KPCommentAccountRecord,
    account_max0: CommentMaxRecord,
    t: DocumentType,
) -> int {
    let a = account_after_comment(account0, c);
    let amax = comment_max_after(account_max0, a.count, a.fees, a.positive_count, (a.fees / a.count) as u64);
    attend_spec(
        w,
        comment_rates_spec(amax, a.count, a.fees, a.positive_count, (a.fees / a.count) as u64),
        100,
        comment_weights(w, t).0,
    )
}

/// A document's power after a comment: new attendance power, and new
/// judge power when the comment set a verdict.
pub open spec fn comment_doc_power(
    w: PowerWeights,
    c: KPCommentData,
    doc0: KPDocumentData,
    power0: DocumentPower,
    doc_max0: CommentMaxRecord,
    base0: Option<CommentMaxRecord>,
    is_expert: bool,
    is_platform: bool,
) -> DocumentPower {
    let d = doc_after_comment(doc0, c, is_expert, is_platform);
    let unit = (d.comment_total_fee / d.comment_count) as u64;
    let dmax = comment_max_after(doc_max0, d.comment_count, d.comment_total_fee, d.comment_positive_count, unit);
    let base = compare_base_after(base0, dmax, d);
    let cw = comment_weights(w, doc0.document_type);
    let doc_attend = attend_spec(
        w,
        comment_rates_spec(base, d.comment_count, d.comment_total_fee, d.comment_positive_count, unit),
        cw.1,
        cw.2,
    );
    let set_any = sets_expert(doc0, is_expert) || sets_platform(doc0, is_platform);
    let judge = if set_any {
        judge_spec(trend_power_spec(d.expert_trend, d.platform_trend), cw.2, cw.3)
    } else {
        0
    };
    power_update_spec(power0, doc_attend as u64, judge as u64, 0)
}

/// Applies one comment: updates the sender's and the document's comment
/// aggregates and maxima, records verdicts, and computes the sender's
/// attendance power and the document's new attendance and judge power.
pub fn process_comment_power(
    comment: &KPCommentData,
    doc: &mut KPDocumentData,
    doc_power: &mut DocumentPower,
    account: &mut KPCommentAccountRecord,
    account_max: &mut CommentMaxRecord,
    doc_max: &mut CommentMaxRecord,
    compare_base: &mut Option<CommentMaxRecord>,
    is_expert: bool,
    is_platform: bool,
    w: &PowerWeights,
) -> (r: CommentPowerOutcome)
    requires
        old(account).count < u64::MAX,
        old(account).positive_count < u64::MAX,
        old(account).fees + comment.comment_fee <= u64::MAX,
        old(doc).comment_count < u64::MAX,
        old(doc).comment_positive_count < u64::MAX,
        old(doc).comment_total_fee + comment.comment_fee <= u64::MAX,
    ensures
        *final(doc_power) == comment_doc_power(*w, *comment, *old(doc), *old(doc_power), *old(doc_max),
            *old(compare_base), is_expert, is_platform),
        r.account_power == comment_account_power(*w, *comment, *old(account), *old(account_max),
            old(doc).document_type),
        ({
            let a = *final(account);
            let d = *final(doc);
            let cw = comment_weights(*w, old(doc).document_type);
            let base = compare_base_after(*old(compare_base), *final(doc_max), d);
            let doc_attend = attend_spec(
                *w,
                comment_rates_spec(
                    base,
                    d.comment_count,
                    d.comment_total_fee,
                    d.comment_positive_count,
                    (d.comment_total_fee / d.comment_count) as u64,
                ),
                cw.1,
                cw.2,
            );
            let set_any = sets_expert(*old(doc), is_expert) || sets_platform(*old(doc), is_platform);
            let judge = if set_any {
                judge_spec(trend_power_spec(d.expert_trend, d.platform_trend), cw.2, cw.3)
            } else {
                0
            };
            &&& a == account_after_comment(*old(account), *comment)
            &&& *final(account_max) == comment_max_after(
                *old(account_max),
                a.count,
                a.fees,
                a.positive_count,
                (a.fees / a.count) as u64,
            )
            &&& r.account_power == attend_spec(
                *w,
                comment_rates_spec(
                    *final(account_max),
                    a.count,
                    a.fees,
                    a.positive_count,
                    (a.fees / a.count) as u64,
                ),
                100,
                cw.0,
            )
            &&& d == doc_after_comment(*old(doc), *comment, is_expert, is_platform)
            &&& *final(doc_max) == comment_max_after(
                *old(doc_max),
                d.comment_count,
                d.comment_total_fee,
                d.comment_positive_count,
                (d.comment_total_fee / d.comment_count) as u64,
            )
            &&& *final(compare_base) == Some(base)
            &&& *final(doc_power) == power_update_spec(*old(doc_power), doc_attend as u64, judge as u64, 0)
            &&& r.pool_item.account@ == comment.sender@
            &&& r.pool_item.position == d.comment_count
            &&& r.pool_item.cash_cost == comment.comment_fee
            &&& r.expert_rewards == (if sets_expert(*old(doc), is_expert) { 1int } else { 0int }) + (
            if sets_platform(*old(doc), is_platform) {
                1int
            } else {
                0int
            })
            &&& r.normal_reward == !set_any
        }),
{
    let ghost old_doc = *doc;
    account.count = account.count + 1;
    account.fees = account.fees + comment.comment_fee;
    doc.comment_count = doc.comment_count + 1;
    doc.comment_total_fee = doc.comment_total_fee + comment.comment_fee;
    if comment.comment_trend == 0 {
        doc.comment_positive_count = doc.comment_positive_count + 1;
        account.positive_count = account.positive_count + 1;
    }
    let account_unit_fee = account.fees / account.count;
    update_comment_max(account_max, account.count, account.fees, account.positive_count, account_unit_fee);

    let (account_attend_weight, comment_power_weight, doc_top_weight, doc_judge_weight) =
        comment_weights_of(w, doc.document_type);

    let account_rates = compute_comment_action_rate(
        account_max,
        account.count,
        account.fees,
        account.positive_count,
        account_unit_fee,
    );
    let account_power = compute_attend_power(w, &account_rates, 100, account_attend_weight);

    let doc_unit_fee = doc.comment_total_fee / doc.comment_count;
    update_comment_max(
        doc_max,
        doc.comment_count,
        doc.comment_total_fee,
        doc.comment_positive_count,
        doc_unit_fee,
    );
    let base = match *compare_base {
        Some(b) => {
            let mut b = b;
            update_comment_max(
                &mut b,
                doc.comment_count,
                doc.comment_total_fee,
                doc.comment_positive_count,
                doc_unit_fee,
            );
            b
        },
        None => *doc_max,
    };
    *compare_base = Some(base);
    let doc_rates = compute_comment_action_rate(
        &base,
        doc.comment_count,
        doc.comment_total_fee,
        doc.comment_positive_count,
        doc_unit_fee,
    );
    let doc_comment_power = compute_attend_power(w, &doc_rates, comment_power_weight, doc_top_weight);

    let mut platform_comment_power: PowerSize = 0;
    let mut expert_rewards: u8 = 0;
    if doc.expert_trend == CommentTrend::Empty && is_expert {
        doc.expert_trend = CommentTrend::from_u8(comment.comment_trend);
        let t = compute_doc_trend_power(doc.expert_trend, doc.platform_trend);
        platform_comment_power = compute_judge_power(t, doc_top_weight, doc_judge_weight);
        expert_rewards = expert_rewards + 1;
    }
    if doc.platform_trend == CommentTrend::Empty && is_platform {
        doc.platform_trend = CommentTrend::from_u8(comment.comment_trend);
        let t = compute_doc_trend_power(doc.expert_trend, doc.platform_trend);
        platform_comment_power = compute_judge_power(t, doc_top_weight, doc_judge_weight);
        expert_rewards = expert_rewards + 1;
    }
    update_document_power(doc_power, doc_comment_power, platform_comment_power, 0);
    let pool_item = CommentWeightData {
        account: comment.sender.clone(),
        position: doc.comment_count,
        cash_cost: comment.comment_fee,
    };
    CommentPowerOutcome {
        account_power,
        pool_item,
        expert_rewards,
        normal_reward: expert_rewards == 0,
    }
}

/// The reward for a comment: the cost in whole units of a hundred, in
/// balance units of 10^12, at a percentage rate.
pub open spec fn comment_reward_spec(rate_percent: u32, cost: u64) -> int {
    crate::arith::per_mul(
        PERMILL_ONE as int,
        pct(rate_percent as int),
        (((cost / 100) as u32) as int) * 1_000_000_000_000,
    )
}

/// The amount paid from the treasury for a comment of a given cost.
pub fn comment_reward_amount(rate_percent: u32, cost: PowerSize) -> (r: u128)
    ensures
        r == comment_reward_spec(rate_percent, cost),
{
    let rate = crate::arith::permill_from_percent(rate_percent);
    proof {
        let y = if rate_percent > 100 { 100int } else { rate_percent as int };
        assert(y * 1000000 / 100 == y * 10000) by (nonlinear_arith)
            requires
                y >= 0,
        ;
    }
    #[verifier::truncate]
    let units = (cost / 100) as u32;
    let amount: u128 = (units as u128) * 1_000_000_000_000u128;
    crate::arith::permill_mul_balance(rate, amount)
}

} // verus!
