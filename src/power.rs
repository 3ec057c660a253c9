//! Power computation: raw document and comment metrics become fixed-point
//! content, attendance and judge power through per-app running maxima and
//! configured percentage weights.

use vstd::prelude::*;
use crate::arith::{
    per_from_percent, per_from_rational, per_mul, permill_from_percent, permill_from_rational,
    scale_power, lemma_from_rational_bounded, lemma_from_rational_self, lemma_per_mul_bounded,
    PERMILL_ONE,
};

verus! {

/// A power value.
pub type PowerSize = u64;

/// An account, as the bytes of its public identity.
pub type AccountId = Vec<u8>;

/// The whole that fractional powers are scaled to.
pub const FLOAT_COMPUTE_PRECISION: u64 = 10000;

/// A verdict on a document.
#[derive(Clone, Copy, Debug, PartialEq, Eq, Structural)]
pub enum CommentTrend {
    Positive,
    Negative,
    Empty,
}

/// The verdict that a comment's trend byte stands for.
pub open spec fn trend_of(b: u8) -> CommentTrend {
    if b == 0 {
        CommentTrend::Positive
    } else if b == 1 {
        CommentTrend::Negative
    } else {
        CommentTrend::Empty
    }
}

impl CommentTrend {
    /// The verdict of a trend byte: 0 positive, 1 negative, anything else none.
    pub fn from_u8(b: u8) -> (r: CommentTrend)
        ensures
            r == trend_of(b),
    {
        if b == 0 {
            CommentTrend::Positive
        } else if b == 1 {
            CommentTrend::Negative
        } else {
            CommentTrend::Empty
        }
    }
}

/// The kind of a document.
#[derive(Clone, Copy, Debug, PartialEq, Eq, Structural)]
pub enum DocumentType {
    ProductPublish,
    ProductIdentify,
    ProductTry,
    ProductChoose,
    ModelCreate,
    Unknown,
}

/// The kind of a document's type byte: 0 to 4 in order, anything else unknown.
pub open spec fn document_type_of(b: u8) -> DocumentType {
    if b == 0 {
        DocumentType::ProductPublish
    } else if b == 1 {
        DocumentType::ProductIdentify
    } else if b == 2 {
        DocumentType::ProductTry
    } else if b == 3 {
        DocumentType::ProductChoose
    } else if b == 4 {
        DocumentType::ModelCreate
    } else {
        DocumentType::Unknown
    }
}

impl DocumentType {
    /// The kind of a type byte.
    pub fn from_u8(b: u8) -> (r: DocumentType)
        ensures
            r == document_type_of(b),
    {
        if b == 0 {
            DocumentType::ProductPublish
        } else if b == 1 {
            DocumentType::ProductIdentify
        } else if b == 2 {
            DocumentType::ProductTry
        } else if b == 3 {
            DocumentType::ProductChoose
        } else if b == 4 {
            DocumentType::ModelCreate
        } else {
            DocumentType::Unknown
        }
    }

    /// The type byte of a kind (5 for an unknown kind).
    pub fn code(&self) -> (r: u8)
        ensures
            *self != DocumentType::Unknown ==> document_type_of(r) == *self,
            *self == DocumentType::Unknown ==> r == 5,
    {
        match self {
            DocumentType::ProductPublish => 0,
            DocumentType::ProductIdentify => 1,
            DocumentType::ProductTry => 2,
            DocumentType::ProductChoose => 3,
            DocumentType::ModelCreate => 4,
            DocumentType::Unknown => 5,
        }
    }
}

/// The three parts of a document's power.
#[derive(Clone, Copy, Debug, PartialEq, Eq, Structural)]
pub struct DocumentPower {
    pub attend: PowerSize,
    pub content: PowerSize,
    pub judge: PowerSize,
}

impl DocumentPower {
    /// No power at all.
    pub fn zero() -> (r: DocumentPower)
        ensures
            r == (DocumentPower { attend: 0, content: 0, judge: 0 }),
    {
        DocumentPower { attend: 0, content: 0, judge: 0 }
    }

    /// The sum of the three parts.
    pub open spec fn total_spec(&self) -> int {
        self.attend + self.content + self.judge
    }

    /// The sum of the three parts.
    pub fn total(&self) -> (r: PowerSize)
        requires
            self.total_spec() <= u64::MAX,
        ensures
            r == self.total_spec(),
    {
        self.attend + self.content + self.judge
    }

    /// Part-wise sum.
    pub fn add(&self, other: &DocumentPower) -> (r: DocumentPower)
        requires
            self.attend + other.attend <= u64::MAX,
            self.content + other.content <= u64::MAX,
            self.judge + other.judge <= u64::MAX,
        ensures
            r.attend == self.attend + other.attend,
            r.content == self.content + other.content,
            r.judge == self.judge + other.judge,
    {
        DocumentPower {
            attend: self.attend + other.attend,
            content: self.content + other.content,
            judge: self.judge + other.judge,
        }
    }
}

/// Metrics of a product publish document.
#[derive(Clone, Copy, Debug, PartialEq, Eq, Structural)]
pub struct KPProductPublishData {
    pub para_issue_rate: PowerSize,
    pub self_issue_rate: PowerSize,
    pub refer_count: PowerSize,
}

/// Running maxima of publish metrics.
#[derive(Clone, Copy, Debug, PartialEq, Eq, Structural)]
pub struct KPProductPublishRateMax {
    pub para_issue_rate: PowerSize,
    pub self_issue_rate: PowerSize,
    pub refer_count: PowerSize,
}

/// Metrics of a product identify document.
#[derive(Clone, Debug)]
pub struct KPProductIdentifyData {
    pub goods_price: PowerSize,
    pub ident_rate: PowerSize,
    pub ident_consistence: PowerSize,
    pub seller_consistence: PowerSize,
    pub cart_id: Vec<u8>,
}

/// Running maxima of identify metrics.
#[derive(Clone, Copy, Debug, PartialEq, Eq, Structural)]
pub struct KPProductIdentifyRateMax {
    pub ident_rate: PowerSize,
    pub ident_consistence: PowerSize,
    pub seller_consistence: PowerSize,
}

/// Metrics of a product try document.
#[derive(Clone, Debug)]
pub struct KPProductTryData {
    pub goods_price: PowerSize,
    pub offset_rate: PowerSize,
    pub true_rate: PowerSize,
    pub seller_consistence: PowerSize,
    pub cart_id: Vec<u8>,
}

/// Running maxima of try metrics.
#[derive(Clone, Copy, Debug, PartialEq, Eq, Structural)]
pub struct KPProductTryRateMax {
    pub offset_rate: PowerSize,
    pub true_rate: PowerSize,
    pub seller_consistence: PowerSize,
}

/// Metrics of a product choose document.
#[derive(Clone, Copy, Debug, PartialEq, Eq, Structural)]
pub struct KPProductChooseData {
    pub sell_count: PowerSize,
    pub try_count: PowerSize,
}

/// Running maxima of choose metrics.
#[derive(Clone, Copy, Debug, PartialEq, Eq, Structural)]
pub struct KPProductChooseDataMax {
    pub sell_count: PowerSize,
    pub try_count: PowerSize,
}

/// Metrics of a model create document.
#[derive(Clone, Copy, Debug, PartialEq, Eq, Structural)]
pub struct KPModelCreateData {
    pub producer_count: PowerSize,
    pub product_count: PowerSize,
}

/// Running maxima of model create metrics.
#[derive(Clone, Copy, Debug, PartialEq, Eq, Structural)]
pub struct KPModelCreateDataMax {
    pub producer_count: PowerSize,
    pub product_count: PowerSize,
}

/// The type-tagged payload of a document.
#[derive(Clone, Debug)]
pub enum DocumentSpecificData {
    ProductPublish(KPProductPublishData),
    ProductIdentify(KPProductIdentifyData),
    ProductTry(KPProductTryData),
    ProductChoose(KPProductChooseData),
    ModelCreate(KPModelCreateData),
}

/// The running maxima of one app, one record per document kind.
#[derive(Clone, Copy, Debug, PartialEq, Eq, Structural)]
pub struct DocumentMaxParams {
    pub publish: KPProductPublishRateMax,
    pub identify: KPProductIdentifyRateMax,
    pub try_rate: KPProductTryRateMax,
    pub choose: KPProductChooseDataMax,
    pub model: KPModelCreateDataMax,
}

/// Maxima before any document was seen.
pub open spec fn zero_maxima() -> DocumentMaxParams {
    DocumentMaxParams {
        publish: KPProductPublishRateMax { para_issue_rate: 0, self_issue_rate: 0, refer_count: 0 },
        identify: KPProductIdentifyRateMax { ident_rate: 0, ident_consistence: 0, seller_consistence: 0 },
        try_rate: KPProductTryRateMax { offset_rate: 0, true_rate: 0, seller_consistence: 0 },
        choose: KPProductChooseDataMax { sell_count: 0, try_count: 0 },
        model: KPModelCreateDataMax { producer_count: 0, product_count: 0 },
    }
}

impl DocumentMaxParams {
    /// Maxima before any document was seen.
    pub fn new() -> (r: DocumentMaxParams)
        ensures
            r == zero_maxima(),
    {
        DocumentMaxParams {
            publish: KPProductPublishRateMax { para_issue_rate: 0, self_issue_rate: 0, refer_count: 0 },
            identify: KPProductIdentifyRateMax {
                ident_rate: 0,
                ident_consistence: 0,
                seller_consistence: 0,
            },
            try_rate: KPProductTryRateMax { offset_rate: 0, true_rate: 0, seller_consistence: 0 },
            choose: KPProductChooseDataMax { sell_count: 0, try_count: 0 },
            model: KPModelCreateDataMax { producer_count: 0, product_count: 0 },
        }
    }
}

/// A document with its comment aggregates and verdicts.
#[derive(Clone, Debug)]
pub struct KPDocumentData {
    pub app_id: u32,
    pub document_id: Vec<u8>,
    pub model_id: Vec<u8>,
    pub product_id: Vec<u8>,
    pub owner: AccountId,
    pub document_type: DocumentType,
    pub document_data: DocumentSpecificData,
    pub comment_count: PowerSize,
    pub comment_total_fee: PowerSize,
    pub comment_positive_count: PowerSize,
    pub expert_trend: CommentTrend,
    pub platform_trend: CommentTrend,
}

/// The configured percentage weights of the power formulas.
#[derive(Clone, Copy, Debug)]
pub struct PowerWeights {
    pub top_weight_product_publish: u8,
    pub top_weight_document_identify: u8,
    pub top_weight_document_try: u8,
    pub top_weight_account_attend: u8,
    pub top_weight_account_stake: u8,
    pub document_power_weight_attend: u8,
    pub document_power_weight_content: u8,
    pub document_power_weight_judge: u8,
    pub comment_power_weight_count: u8,
    pub comment_power_weight_cost: u8,
    pub comment_power_weight_per_cost: u8,
    pub comment_power_weight_positive: u8,
    pub document_publish_weight_params_rate: u8,
    pub document_publish_weight_params_self_rate: u8,
    pub document_publish_weight_params_attend_rate: u8,
    pub document_identify_weight_params_rate: u8,
    pub document_identify_weight_check_rate: u8,
    pub document_identify_weight_consistent_rate: u8,
    pub document_try_weight_bias_rate: u8,
    pub document_try_weight_true_rate: u8,
    pub document_try_weight_consistent_rate: u8,
    pub document_choose_weight_sell_count: u8,
    pub document_choose_weight_try_count: u8,
    pub document_model_weight_producer_count: u8,
    pub document_model_weight_product_count: u8,
    pub document_cm_power_weight_attend: u8,
    pub document_cm_power_weight_content: u8,
    pub document_cm_power_weight_judge: u8,
    pub cm_power_account_attend: u8,
}

// ---------------------------------------------------------------------------
// Formulas
// ---------------------------------------------------------------------------

/// `x` percent as parts per million.
pub open spec fn pct(x: int) -> int {
    per_from_percent(PERMILL_ONE as int, x)
}

/// `x` scaled by `part` parts per million.
pub open spec fn pm(part: int, x: int) -> int {
    per_mul(PERMILL_ONE as int, part, x)
}

/// The base of a formula: the precision scaled by two percentage weights.
pub open spec fn base_spec(top: int, second: int) -> int {
    pm(pct(second), pm(pct(top), FLOAT_COMPUTE_PRECISION as int))
}

/// One weighted term: a fraction of the base, scaled by a percentage weight.
pub open spec fn term_spec(rate: int, base: int, weight: int) -> int {
    pm(pct(weight), pm(rate, base))
}

proof fn lemma_pct_bounded(x: int)
    requires
        x >= 0,
    ensures
        0 <= pct(x) <= PERMILL_ONE,
{
    let y = if x > 100 { 100int } else { x };
    assert(y * 1000000 / 100 == y * 10000) by (nonlinear_arith)
        requires
            y >= 0,
    ;
}

fn content_base(top: u32, second: u32) -> (r: u64)
    ensures
        r == base_spec(top as int, second as int),
        r <= FLOAT_COMPUTE_PRECISION,
{
    proof {
        lemma_pct_bounded(top as int);
        lemma_pct_bounded(second as int);
    }
    let b = scale_power(permill_from_percent(top), FLOAT_COMPUTE_PRECISION);
    scale_power(permill_from_percent(second), b)
}

fn weighted_term(rate: u32, base: u64, weight: u32) -> (r: u64)
    requires
        rate <= PERMILL_ONE,
    ensures
        r == term_spec(rate as int, base as int, weight as int),
        r <= base,
{
    proof {
        lemma_pct_bounded(weight as int);
    }
    let sub = scale_power(rate, base);
    scale_power(permill_from_percent(weight), sub)
}

/// The fraction that a metric gives against a running maximum, once the
/// maximum has taken the metric in.
pub open spec fn normalized(rate: int, max: int) -> int {
    if rate > 0 {
        per_from_rational(PERMILL_ONE as int, rate, running_max(rate, max))
    } else {
        0
    }
}

/// The running maximum after a metric was seen.
pub open spec fn running_max(rate: int, max: int) -> int {
    if rate > max {
        rate
    } else {
        max
    }
}

/// Normalises a metric against its running maximum, raising the maximum
/// first when the metric exceeds it.
pub fn update_max(rate: PowerSize, max: &mut PowerSize) -> (r: u32)
    ensures
        *final(max) == running_max(rate as int, *old(max) as int),
        r == normalized(rate as int, *old(max) as int),
        r <= PERMILL_ONE,
{
    if rate > *max {
        *max = rate;
    }
    if rate > 0 {
        proof {
            lemma_from_rational_bounded(PERMILL_ONE as int, rate as int, *max as int);
        }
        return permill_from_rational(rate, *max);
    }
    0
}

/// A running maximum never decreases, and the metric that raises it
/// normalises to exactly one whole.
pub proof fn lemma_running_max_law(rate: PowerSize, max: PowerSize)
    ensures
        running_max(rate as int, max as int) >= max,
        running_max(rate as int, max as int) >= rate,
        rate > max ==> normalized(rate as int, max as int) == PERMILL_ONE,
{
    if rate > max {
        lemma_from_rational_self(PERMILL_ONE as int, rate as int);
    }
}

/// The judge fraction, in parts per million, of a pair of verdicts.
pub open spec fn trend_power_spec(expert: CommentTrend, platform: CommentTrend) -> int {
    match (expert, platform) {
        (CommentTrend::Positive, CommentTrend::Positive) => 1_000_000,
        (CommentTrend::Negative, CommentTrend::Negative) => 0,
        (CommentTrend::Empty, CommentTrend::Empty) => 500_000,
        (CommentTrend::Positive, CommentTrend::Negative) => 375_000,
        (CommentTrend::Negative, CommentTrend::Positive) => 375_000,
        (CommentTrend::Positive, CommentTrend::Empty) => 750_000,
        (CommentTrend::Empty, CommentTrend::Positive) => 750_000,
        (CommentTrend::Negative, CommentTrend::Empty) => 250_000,
        (CommentTrend::Empty, CommentTrend::Negative) => 250_000,
    }
}

/// The judge fraction of a document's expert and platform verdicts.
pub fn compute_doc_trend_power(expert: CommentTrend, platform: CommentTrend) -> (r: u32)
    ensures
        r == trend_power_spec(expert, platform),
        r <= PERMILL_ONE,
{
    match (expert, platform) {
        (CommentTrend::Positive, CommentTrend::Positive) => permill_from_percent(100),
        (CommentTrend::Negative, CommentTrend::Negative) => permill_from_percent(0),
        (CommentTrend::Empty, CommentTrend::Empty) => permill_from_percent(50),
        (CommentTrend::Positive, CommentTrend::Negative) | (
            CommentTrend::Negative,
            CommentTrend::Positive,
        ) => permill_from_rational(375, 1000),
        (CommentTrend::Positive, CommentTrend::Empty) | (
            CommentTrend::Empty,
            CommentTrend::Positive,
        ) => permill_from_percent(75),
        (CommentTrend::Negative, CommentTrend::Empty) | (
            CommentTrend::Empty,
            CommentTrend::Negative,
        ) => permill_from_percent(25),
    }
}

/// Judge power: a verdict fraction of the base of two weights.
pub open spec fn judge_spec(origin: int, top: int, document_weight: int) -> int {
    pm(origin, base_spec(top, document_weight))
}

/// Judge power of a verdict fraction under a top weight and a document weight.
pub fn compute_judge_power(origin_power: u32, top_weight: u32, document_weight: u8) -> (r: PowerSize)
    requires
        origin_power <= PERMILL_ONE,
    ensures
        r == judge_spec(origin_power as int, top_weight as int, document_weight as int),
        r <= FLOAT_COMPUTE_PRECISION,
{
    let base = content_base(top_weight, document_weight as u32);
    scale_power(origin_power, base)
}

/// Content power of a publish document from its three fractions.
pub open spec fn publish_content_spec(w: PowerWeights, a: int, b: int, c: int) -> int {
    let base = base_spec(w.top_weight_product_publish as int, w.document_power_weight_content as int);
    term_spec(a, base, w.document_publish_weight_params_rate as int) + term_spec(
        b,
        base,
        w.document_publish_weight_params_self_rate as int,
    ) + term_spec(c, base, w.document_publish_weight_params_attend_rate as int)
}

/// Content power of a publish document from its three fractions.
pub fn compute_publish_product_content_power(
    w: &PowerWeights,
    para_issue_rate: u32,
    self_issue_rate: u32,
    attend_rate: u32,
) -> (r: PowerSize)
    requires
        para_issue_rate <= PERMILL_ONE,
        self_issue_rate <= PERMILL_ONE,
        attend_rate <= PERMILL_ONE,
    ensures
        r == publish_content_spec(
            *w,
            para_issue_rate as int,
            self_issue_rate as int,
            attend_rate as int,
        ),
        r <= 3 * FLOAT_COMPUTE_PRECISION,
{
    let base = content_base(
        w.top_weight_product_publish as u32,
        w.document_power_weight_content as u32,
    );
    let s1 = weighted_term(para_issue_rate, base, w.document_publish_weight_params_rate as u32);
    let s2 = weighted_term(self_issue_rate, base, w.document_publish_weight_params_self_rate as u32);
    let s3 = weighted_term(attend_rate, base, w.document_publish_weight_params_attend_rate as u32);
    s1 + s2 + s3
}

/// Content power of an identify document from its three fractions.
pub open spec fn identify_content_spec(w: PowerWeights, a: int, b: int, c: int) -> int {
    let base = base_spec(w.top_weight_document_identify as int, w.document_power_weight_content as int);
    term_spec(a, base, w.document_identify_weight_params_rate as int) + term_spec(
        b,
        base,
        w.document_identify_weight_check_rate as int,
    ) + term_spec(c, base, w.document_identify_weight_consistent_rate as int)
}

/// Content power of an identify document from its three fractions.
pub fn compute_identify_content_power(
    w: &PowerWeights,
    ident_rate: u32,
    ident_consistence: u32,
    seller_consistence: u32,
) -> (r: PowerSize)
    requires
        ident_rate <= PERMILL_ONE,
        ident_consistence <= PERMILL_ONE,
        seller_consistence <= PERMILL_ONE,
    ensures
        r == identify_content_spec(
            *w,
            ident_rate as int,
            ident_consistence as int,
            seller_consistence as int,
        ),
        r <= 3 * FLOAT_COMPUTE_PRECISION,
{
    let base = content_base(
        w.top_weight_document_identify as u32,
        w.document_power_weight_content as u32,
    );
    let s1 = weighted_term(ident_rate, base, w.document_identify_weight_params_rate as u32);
    let s2 = weighted_term(ident_consistence, base, w.document_identify_weight_check_rate as u32);
    let s3 = weighted_term(
        seller_consistence,
        base,
        w.document_identify_weight_consistent_rate as u32,
    );
    s1 + s2 + s3
}

/// Content power of a try document from its three fractions.
pub open spec fn try_content_spec(w: PowerWeights, a: int, b: int, c: int) -> int {
    let base = base_spec(w.top_weight_document_try as int, w.document_power_weight_content as int);
    term_spec(a, base, w.document_try_weight_bias_rate as int) + term_spec(
        b,
        base,
        w.document_try_weight_true_rate as int,
    ) + term_spec(c, base, w.document_try_weight_consistent_rate as int)
}

/// Content power of a try document from its three fractions.
pub fn compute_try_content_power(
    w: &PowerWeights,
    offset_rate: u32,
    true_rate: u32,
    seller_consistence: u32,
) -> (r: PowerSize)
    requires
        offset_rate <= PERMILL_ONE,
        true_rate <= PERMILL_ONE,
        seller_consistence <= PERMILL_ONE,
    ensures
        r == try_content_spec(*w, offset_rate as int, true_rate as int, seller_consistence as int),
        r <= 3 * FLOAT_COMPUTE_PRECISION,
{
    let base = content_base(w.top_weight_document_try as u32, w.document_power_weight_content as u32);
    let s1 = weighted_term(offset_rate, base, w.document_try_weight_bias_rate as u32);
    let s2 = weighted_term(true_rate, base, w.document_try_weight_true_rate as u32);
    let s3 = weighted_term(seller_consistence, base, w.document_try_weight_consistent_rate as u32);
    s1 + s2 + s3
}

/// The base of the choose and model create formulas.
pub open spec fn cm_base_spec(w: PowerWeights) -> int {
    pm(pct(w.document_cm_power_weight_content as int), FLOAT_COMPUTE_PRECISION as int)
}

fn cm_content_base(w: &PowerWeights) -> (r: u64)
    ensures
        r == cm_base_spec(*w),
        r <= FLOAT_COMPUTE_PRECISION,
{
    proof {
        lemma_pct_bounded(w.document_cm_power_weight_content as int);
    }
    scale_power(
        permill_from_percent(w.document_cm_power_weight_content as u32),
        FLOAT_COMPUTE_PRECISION,
    )
}

/// Content power of a choose document from its two fractions.
pub open spec fn choose_content_spec(w: PowerWeights, a: int, b: int) -> int {
    term_spec(a, cm_base_spec(w), w.document_choose_weight_sell_count as int) + term_spec(
        b,
        cm_base_spec(w),
        w.document_choose_weight_try_count as int,
    )
}

/// Content power of a choose document from its two fractions.
pub fn compute_choose_content_power(w: &PowerWeights, sell_count_rate: u32, try_count_rate: u32) -> (r: PowerSize)
    requires
        sell_count_rate <= PERMILL_ONE,
        try_count_rate <= PERMILL_ONE,
    ensures
        r == choose_content_spec(*w, sell_count_rate as int, try_count_rate as int),
        r <= 2 * FLOAT_COMPUTE_PRECISION,
{
    let base = cm_content_base(w);
    let s1 = weighted_term(sell_count_rate, base, w.document_choose_weight_sell_count as u32);
    let s2 = weighted_term(try_count_rate, base, w.document_choose_weight_try_count as u32);
    s1 + s2
}

/// Content power of a model create document from its two fractions.
pub open spec fn model_content_spec(w: PowerWeights, a: int, b: int) -> int {
    term_spec(a, cm_base_spec(w), w.document_model_weight_producer_count as int) + term_spec(
        b,
        cm_base_spec(w),
        w.document_model_weight_product_count as int,
    )
}

/// Content power of a model create document from its two fractions.
pub fn compute_model_content_power(
    w: &PowerWeights,
    producer_count_rate: u32,
    product_count_rate: u32,
) -> (r: PowerSize)
    requires
        producer_count_rate <= PERMILL_ONE,
        product_count_rate <= PERMILL_ONE,
    ensures
        r == model_content_spec(*w, producer_count_rate as int, product_count_rate as int),
        r <= 2 * FLOAT_COMPUTE_PRECISION,
{
    let base = cm_content_base(w);
    let s1 = weighted_term(producer_count_rate, base, w.document_model_weight_producer_count as u32);
    let s2 = weighted_term(product_count_rate, base, w.document_model_weight_product_count as u32);
    s1 + s2
}

/// Fractions of a comment record against its maxima: count, cost, unit
/// cost and positive count, in parts per million.
pub struct CommentRates {
    pub count: u32,
    pub cost: u32,
    pub unit_cost: u32,
    pub positive: u32,
}

/// Attendance power from four comment fractions.
pub open spec fn attend_spec(w: PowerWeights, r: CommentRates, second: int, top: int) -> int {
    let base = base_spec(top, second);
    term_spec(r.count as int, base, w.comment_power_weight_count as int) + term_spec(
        r.cost as int,
        base,
        w.comment_power_weight_cost as int,
    ) + term_spec(r.unit_cost as int, base, w.comment_power_weight_per_cost as int) + term_spec(
        r.positive as int,
        base,
        w.comment_power_weight_positive as int,
    )
}

/// Whether every fraction is at most a whole.
pub open spec fn rates_wf(r: CommentRates) -> bool {
    r.count <= PERMILL_ONE && r.cost <= PERMILL_ONE && r.unit_cost <= PERMILL_ONE && r.positive
        <= PERMILL_ONE
}

/// Attendance power from four comment fractions under two weights.
pub fn compute_attend_power(w: &PowerWeights, rates: &CommentRates, second_weight: u32, top_weight: u32) -> (r: PowerSize)
    requires
        rates_wf(*rates),
    ensures
        r == attend_spec(*w, *rates, second_weight as int, top_weight as int),
        r <= 4 * FLOAT_COMPUTE_PRECISION,
{
    let base = content_base(top_weight, second_weight);
    let s1 = weighted_term(rates.count, base, w.comment_power_weight_count as u32);
    let s2 = weighted_term(rates.cost, base, w.comment_power_weight_cost as u32);
    let s3 = weighted_term(rates.unit_cost, base, w.comment_power_weight_per_cost as u32);
    let s4 = weighted_term(rates.positive, base, w.comment_power_weight_positive as u32);
    s1 + s2 + s3 + s4
}

/// Price power: the price against the highest price seen, scaled by the
/// stake weight; nothing while no price was seen.
pub open spec fn price_power_spec(w: PowerWeights, price: u64, max: u64) -> int {
    if max == 0 {
        0
    } else {
        pm(
            per_from_rational(PERMILL_ONE as int, price as int, max as int),
            pm(pct(w.top_weight_account_stake as int), FLOAT_COMPUTE_PRECISION as int),
        )
    }
}

/// Price power of a commodity price against the highest price seen.
pub fn compute_price_power(w: &PowerWeights, commodity_price: PowerSize, max_goods_price: PowerSize) -> (r: PowerSize)
    ensures
        r == price_power_spec(*w, commodity_price, max_goods_price),
        r <= FLOAT_COMPUTE_PRECISION,
{
    if max_goods_price == 0 {
        0
    } else {
        proof {
            lemma_pct_bounded(w.top_weight_account_stake as int);
        }
        let base = scale_power(
            permill_from_percent(w.top_weight_account_stake as u32),
            FLOAT_COMPUTE_PRECISION,
        );
        proof {
            lemma_from_rational_bounded(PERMILL_ONE as int, commodity_price as int, max_goods_price as int);
        }
        let frac = permill_from_rational(commodity_price, max_goods_price);
        scale_power(frac, base)
    }
}

} // verus!
