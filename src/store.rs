//! The document store: creating documents runs the power engine and
//! refreshes commodity power, all or nothing.

use vstd::prelude::*;
use crate::aggregate::{identify_or_try_effect, refresh_fails, PowerLedger};
use crate::document::{
    content_power_spec, is_publish, judge_doc_weight, judge_top_weight, max_price_after, maxima_after,
    refer_publish_data, referred_doc,
};
use crate::document::{
    comment_account_power, comment_doc_power, power_update_spec, account_after_comment, doc_after_comment, process_comment_power, process_document_content_power,
    CommentMaxRecord, CommentPowerOutcome, CommentWeightData, KPCommentAccountRecord, KPCommentData,
};
use crate::error::Error;
use crate::power::{
    AccountId, CommentTrend, DocumentMaxParams, DocumentPower, DocumentSpecificData, DocumentType,
    KPDocumentData, zero_maxima, judge_spec, trend_power_spec, KPProductIdentifyData, KPProductChooseData, KPModelCreateData, KPProductPublishData, KPProductTryData, PowerSize,
    PowerWeights,
};
use crate::table::Table;

verus! {

/// Documents, their powers and indexes, the running maxima of each app,
/// the highest goods price, attendance power of accounts, and the ledger.
pub struct KpStore {
    pub weights: PowerWeights,
    pub documents: Vec<KPDocumentData>,
    pub doc_powers: Vec<DocumentPower>,
    /// `(app, document id)` to position in `documents`.
    pub doc_index: Table<usize>,
    /// `(app, product id)` to the position of the product's publish document.
    pub product_index: Table<usize>,
    /// `(app, commodity id)` to the position of its identify document.
    pub cart_identify: Table<usize>,
    /// `(app, commodity id)` to the position of its try document.
    pub cart_try: Table<usize>,
    /// `(app, empty id)` to the app's running maxima.
    pub maxima: Table<DocumentMaxParams>,
    pub max_goods_price: PowerSize,
    /// `(app, account)` to the account's attendance power in the app.
    pub attend_power: Table<PowerSize>,
    pub ledger: PowerLedger,
    /// `(app, comment id)` of every comment.
    pub comment_ids: Table<bool>,
    /// `(app, account)` to the account's comment aggregates.
    pub comment_accounts: Table<KPCommentAccountRecord>,
    /// `(app, empty id)` to the maxima of per-account comment aggregates.
    pub account_comment_max: Table<CommentMaxRecord>,
    /// `(app, empty id)` to the maxima of per-document comment aggregates.
    pub doc_comment_max: Table<CommentMaxRecord>,
    /// `(app, document id)` to the document's comment comparison base.
    pub compare_base: Table<CommentMaxRecord>,
    /// Every commenter, with the app and document commented on.
    pub comment_pools: Vec<(u32, Vec<u8>, CommentWeightData)>,
    /// `(app, document id)` to the power of a choose or model create
    /// document together with its owner's attendance power.
    pub misc_power: Table<PowerSize>,
    /// `(app, empty id)` to the number of commodities of the app.
    pub app_commodity_count: Table<u32>,
    /// `(app, model id)` to the number of commodities of the model.
    pub model_commodity_count: Table<u32>,
}

/// Every index of a table points into a sequence of `n` entries.
pub open spec fn indexes_below(m: Map<(u32, Seq<u8>), usize>, n: int) -> bool {
    forall|k: (u32, Seq<u8>)| m.contains_key(k) ==> #[trigger] m[k] < n
}

/// The running maxima of an app.
pub open spec fn maxima_of(m: Map<(u32, Seq<u8>), DocumentMaxParams>, app_id: u32) -> DocumentMaxParams {
    if m.contains_key((app_id, Seq::empty())) {
        m[(app_id, Seq::empty())]
    } else {
        zero_maxima()
    }
}

/// Whether the document at each product index is a publish document.
pub open spec fn products_are_publish(m: Map<(u32, Seq<u8>), usize>, docs: Seq<KPDocumentData>) -> bool {
    forall|k: (u32, Seq<u8>)| m.contains_key(k) ==> is_publish(docs[#[trigger] m[k] as int].document_data)
}

/// An account's attendance power in an app, zero when none was earned.
pub open spec fn attend_of(m: Map<(u32, Seq<u8>), PowerSize>, app_id: u32, account: Seq<u8>) -> PowerSize {
    if m.contains_key((app_id, account)) {
        m[(app_id, account)]
    } else {
        0
    }
}

/// Whether a document's payload is the identify (or try) payload with
/// these metrics and commodity.
pub open spec fn purchase_data_matches(
    d: DocumentSpecificData,
    is_identify: bool,
    goods_price: PowerSize,
    rates: (PowerSize, PowerSize, PowerSize),
    cart_id: Seq<u8>,
) -> bool {
    match d {
        DocumentSpecificData::ProductIdentify(x) => is_identify && x.goods_price == goods_price
            && x.ident_rate == rates.0 && x.ident_consistence == rates.1 && x.seller_consistence
            == rates.2 && x.cart_id@ == cart_id,
        DocumentSpecificData::ProductTry(x) => !is_identify && x.goods_price == goods_price
            && x.offset_rate == rates.0 && x.true_rate == rates.1 && x.seller_consistence == rates.2
            && x.cart_id@ == cart_id,
        _ => false,
    }
}

/// Two payloads of the same kind with the same metrics and commodity.
pub open spec fn same_data(a: DocumentSpecificData, b: DocumentSpecificData) -> bool {
    match (a, b) {
        (DocumentSpecificData::ProductPublish(x), DocumentSpecificData::ProductPublish(y)) => x == y,
        (DocumentSpecificData::ProductIdentify(x), DocumentSpecificData::ProductIdentify(y)) => x.goods_price
            == y.goods_price && x.ident_rate == y.ident_rate && x.ident_consistence == y.ident_consistence
            && x.seller_consistence == y.seller_consistence && x.cart_id@ == y.cart_id@,
        (DocumentSpecificData::ProductTry(x), DocumentSpecificData::ProductTry(y)) => x.goods_price
            == y.goods_price && x.offset_rate == y.offset_rate && x.true_rate == y.true_rate
            && x.seller_consistence == y.seller_consistence && x.cart_id@ == y.cart_id@,
        (DocumentSpecificData::ProductChoose(x), DocumentSpecificData::ProductChoose(y)) => x == y,
        (DocumentSpecificData::ModelCreate(x), DocumentSpecificData::ModelCreate(y)) => x == y,
        _ => false,
    }
}

/// A copy of a payload.
fn copy_data(d: &DocumentSpecificData) -> (r: DocumentSpecificData)
    ensures
        same_data(r, *d),
        is_publish(r) == is_publish(*d),
{
    match d {
        DocumentSpecificData::ProductPublish(x) => DocumentSpecificData::ProductPublish(*x),
        DocumentSpecificData::ProductIdentify(x) => DocumentSpecificData::ProductIdentify(
            KPProductIdentifyData {
                goods_price: x.goods_price,
                ident_rate: x.ident_rate,
                ident_consistence: x.ident_consistence,
                seller_consistence: x.seller_consistence,
                cart_id: x.cart_id.clone(),
            },
        ),
        DocumentSpecificData::ProductTry(x) => DocumentSpecificData::ProductTry(
            KPProductTryData {
                goods_price: x.goods_price,
                offset_rate: x.offset_rate,
                true_rate: x.true_rate,
                seller_consistence: x.seller_consistence,
                cart_id: x.cart_id.clone(),
            },
        ),
        DocumentSpecificData::ProductChoose(x) => DocumentSpecificData::ProductChoose(*x),
        DocumentSpecificData::ModelCreate(x) => DocumentSpecificData::ModelCreate(*x),
    }
}

/// A count in a table, zero when none was recorded.
pub open spec fn count_of(m: Map<(u32, Seq<u8>), u32>, k: (u32, Seq<u8>)) -> int {
    if m.contains_key(k) {
        m[k] as int
    } else {
        0
    }
}

/// The power of a new document (no verdicts yet) against an app's maxima.
pub open spec fn new_doc_power(w: PowerWeights, data: DocumentSpecificData, m: DocumentMaxParams) -> DocumentPower {
    DocumentPower {
        attend: 0,
        content: content_power_spec(w, data, m) as u64,
        judge: judge_spec(
            trend_power_spec(CommentTrend::Empty, CommentTrend::Empty),
            judge_top_weight(w, data),
            judge_doc_weight(w, data),
        ) as u64,
    }
}

/// A record of comment maxima in a table, all zero when none was kept.
pub open spec fn max_of(m: Map<(u32, Seq<u8>), CommentMaxRecord>, k: (u32, Seq<u8>)) -> CommentMaxRecord {
    if m.contains_key(k) {
        m[k]
    } else {
        CommentMaxRecord { max_count: 0, max_fee: 0, max_positive: 0, max_unit_fee: 0 }
    }
}

/// The comment aggregates of an account, all zero when it never commented.
pub open spec fn account_record_of(
    m: Map<(u32, Seq<u8>), KPCommentAccountRecord>,
    k: (u32, Seq<u8>),
) -> KPCommentAccountRecord {
    if m.contains_key(k) {
        m[k]
    } else {
        KPCommentAccountRecord { count: 0, fees: 0, positive_count: 0 }
    }
}

/// Whether a comment on an existing document cannot be recorded: one of
/// the sender's or the document's comment aggregates would overflow, or
/// refreshing the document's commodity power would.
pub open spec fn comment_fails(s: KpStore, c: KPCommentData, is_expert: bool, is_platform: bool) -> bool {
    let app = c.app_id;
    let empty = Seq::<u8>::empty();
    let d0 = s.documents@[s.doc_index@[(app, c.document_id@)] as int];
    let a0 = account_record_of(s.comment_accounts@, (app, c.sender@));
    let pk = (app, d0.product_id@);
    let has_model = s.product_index@.contains_key(pk);
    let pp = if has_model {
        s.doc_powers@[s.product_index@[pk] as int]
    } else {
        DocumentPower { attend: 0, content: 0, judge: 0 }
    };
    let account_power = comment_account_power(
        s.weights,
        c,
        a0,
        max_of(s.account_comment_max@, (app, empty)),
        d0.document_type,
    );
    let owner_power = if d0.owner@ == c.sender@ {
        account_power as u64
    } else {
        attend_of(s.attend_power@, app, d0.owner@)
    };
    let base0 = if s.compare_base@.contains_key((app, c.document_id@)) {
        Some(s.compare_base@[(app, c.document_id@)])
    } else {
        None
    };
    let dp = comment_doc_power(
        s.weights,
        c,
        d0,
        s.doc_powers@[s.doc_index@[(app, c.document_id@)] as int],
        max_of(s.doc_comment_max@, (app, empty)),
        base0,
        is_expert,
        is_platform,
    );
    ||| a0.count == u64::MAX
    ||| a0.positive_count == u64::MAX
    ||| d0.comment_count == u64::MAX
    ||| d0.comment_positive_count == u64::MAX
    ||| a0.fees + c.comment_fee > u64::MAX
    ||| d0.comment_total_fee + c.comment_fee > u64::MAX
    ||| refresh_fails(
        s.ledger,
        d0.app_id,
        d0.document_data,
        d0.owner@,
        dp,
        pp,
        owner_power,
        s.max_goods_price,
        has_model,
        s.weights,
    )
}

/// The payload of a new identify (or try) document.
pub open spec fn purchase_data(
    is_identify: bool,
    goods_price: PowerSize,
    rates: (PowerSize, PowerSize, PowerSize),
    cart_id: Vec<u8>,
) -> DocumentSpecificData {
    if is_identify {
        DocumentSpecificData::ProductIdentify(KPProductIdentifyData {
            goods_price,
            ident_rate: rates.0,
            ident_consistence: rates.1,
            seller_consistence: rates.2,
            cart_id,
        })
    } else {
        DocumentSpecificData::ProductTry(KPProductTryData {
            goods_price,
            offset_rate: rates.0,
            true_rate: rates.1,
            seller_consistence: rates.2,
            cart_id,
        })
    }
}

/// Whether a purchase document that passes its guards still cannot be
/// created because a counter would overflow: the publish document's refer
/// count, or (for the commodity's first document) the app's or the model's
/// commodity count.
pub open spec fn counters_overflow(
    s: KpStore,
    is_identify: bool,
    app_id: u32,
    product_id: Seq<u8>,
    cart_id: Seq<u8>,
) -> bool {
    let pd = s.documents@[s.product_index@[(app_id, product_id)] as int];
    let other = if is_identify {
        s.cart_try@.contains_key((app_id, cart_id))
    } else {
        s.cart_identify@.contains_key((app_id, cart_id))
    };
    ||| pd.document_data->ProductPublish_0.refer_count == u64::MAX
    ||| !other && (count_of(s.app_commodity_count@, (app_id, Seq::empty())) == u32::MAX || count_of(
        s.model_commodity_count@,
        (app_id, pd.model_id@),
    ) == u32::MAX)
}

/// The publish document's power after it gains a reference from a new
/// purchase document.
pub open spec fn referred_publish_power(
    s: KpStore,
    app_id: u32,
    product_id: Seq<u8>,
    data: DocumentSpecificData,
) -> DocumentPower {
    let pidx = s.product_index@[(app_id, product_id)] as int;
    let orig = s.documents@[pidx].document_data->ProductPublish_0;
    let m1 = maxima_after(data, maxima_of(s.maxima@, app_id));
    power_update_spec(
        s.doc_powers@[pidx],
        0,
        0,
        content_power_spec(
            s.weights,
            DocumentSpecificData::ProductPublish(
                KPProductPublishData { refer_count: (orig.refer_count + 1) as u64, ..orig },
            ),
            m1,
        ) as u64,
    )
}

/// Whether a purchase document that passes its guards still cannot be
/// created: a counter would overflow, or refreshing its commodity's power
/// would.
pub open spec fn purchase_fails(
    s: KpStore,
    is_identify: bool,
    app_id: u32,
    product_id: Seq<u8>,
    goods_price: PowerSize,
    rates: (PowerSize, PowerSize, PowerSize),
    cart_id: Vec<u8>,
    owner: Seq<u8>,
) -> bool {
    let data = purchase_data(is_identify, goods_price, rates, cart_id);
    ||| counters_overflow(s, is_identify, app_id, product_id, cart_id@)
    ||| refresh_fails(
        s.ledger,
        app_id,
        data,
        owner,
        new_doc_power(s.weights, data, maxima_of(s.maxima@, app_id)),
        referred_publish_power(s, app_id, product_id, data),
        attend_of(s.attend_power@, app_id, owner),
        max_price_after(data, s.max_goods_price),
        true,
        s.weights,
    )
}

/// Why creating a purchase (identify or try) document is rejected.
pub open spec fn purchase_doc_rejection(
    s: KpStore,
    is_valid_app: bool,
    is_app_key: bool,
    is_identify: bool,
    app_id: u32,
    document_id: Seq<u8>,
    product_id: Seq<u8>,
    cart_id: Seq<u8>,
) -> Option<Error> {
    if !is_valid_app {
        Some(Error::AppIdInvalid)
    } else if !is_app_key {
        Some(Error::AuthIdentityNotAppKey)
    } else if s.doc_index@.contains_key((app_id, document_id)) {
        Some(Error::DocumentAlreadyExisted)
    } else if !s.product_index@.contains_key((app_id, product_id)) {
        Some(Error::ProductNotFound)
    } else if is_identify && s.cart_identify@.contains_key((app_id, cart_id)) {
        Some(Error::DocumentIdentifyAlreadyExisted)
    } else if !is_identify && s.cart_try@.contains_key((app_id, cart_id)) {
        Some(Error::DocumentTryAlreadyExisted)
    } else {
        None
    }
}

impl KpStore {
    /// Indexes point at documents, each document has a power, product
    /// indexes point at publish documents, and the ledger is well-formed.
    pub open spec fn wf(&self) -> bool {
        &&& self.documents@.len() == self.doc_powers@.len()
        &&& indexes_below(self.doc_index@, self.documents@.len() as int)
        &&& indexes_below(self.product_index@, self.documents@.len() as int)
        &&& indexes_below(self.cart_identify@, self.documents@.len() as int)
        &&& indexes_below(self.cart_try@, self.documents@.len() as int)
        &&& products_are_publish(self.product_index@, self.documents@)
        &&& self.ledger.wf()
    }

    /// An empty store.
    pub fn new(weights: PowerWeights, board_capacity: u32) -> (r: KpStore)
        ensures
            r.wf(),
            r.documents@.len() == 0,
            r.ledger.total_power == 0,
    {
        KpStore {
            weights,
            documents: Vec::new(),
            doc_powers: Vec::new(),
            doc_index: Table::new(),
            product_index: Table::new(),
            cart_identify: Table::new(),
            cart_try: Table::new(),
            maxima: Table::new(),
            max_goods_price: 0,
            attend_power: Table::new(),
            ledger: PowerLedger::new(board_capacity),
            comment_ids: Table::new(),
            comment_accounts: Table::new(),
            account_comment_max: Table::new(),
            doc_comment_max: Table::new(),
            compare_base: Table::new(),
            comment_pools: Vec::new(),
            misc_power: Table::new(),
            app_commodity_count: Table::new(),
            model_commodity_count: Table::new(),
        }
    }

    fn app_maxima(&self, app_id: u32) -> (r: DocumentMaxParams)
        ensures
            r == maxima_of(self.maxima@, app_id),
    {
        let empty: Vec<u8> = Vec::new();
        match self.maxima.get(app_id, &empty) {
            Some(m) => m,
            None => DocumentMaxParams::new(),
        }
    }

    /// Creates a product's publish document: its power is computed against
    /// the app's running maxima, and it becomes the product's document.
    pub fn create_product_publish_document(
        &mut self,
        is_valid_app: bool,
        is_app_key: bool,
        is_valid_model: bool,
        app_id: u32,
        document_id: &Vec<u8>,
        model_id: &Vec<u8>,
        product_id: &Vec<u8>,
        para_issue_rate: PowerSize,
        self_issue_rate: PowerSize,
        owner: &AccountId,
    ) -> (r: Result<(), Error>)
        requires
            old(self).wf(),
            old(self).documents@.len() < usize::MAX,
        ensures
            final(self).wf(),
            r is Err ==> *final(self) == *old(self),
            !is_valid_app ==> r == Err::<(), Error>(Error::AppIdInvalid),
            is_valid_app && !is_app_key ==> r == Err::<(), Error>(Error::AuthIdentityNotAppKey),
            is_valid_app && is_app_key && old(self).doc_index@.contains_key((app_id, document_id@)) ==> r
                == Err::<(), Error>(Error::DocumentAlreadyExisted),
            is_valid_app && is_app_key && !old(self).doc_index@.contains_key((app_id, document_id@))
                && old(self).product_index@.contains_key((app_id, product_id@)) ==> r == Err::<(), Error>(
                Error::ProductAlreadyExisted,
            ),
            is_valid_app && is_app_key && !old(self).doc_index@.contains_key((app_id, document_id@))
                && !old(self).product_index@.contains_key((app_id, product_id@)) && !is_valid_model ==> r
                == Err::<(), Error>(Error::ModelNotFoundOrDisabled),
            is_valid_app && is_app_key && !old(self).doc_index@.contains_key((app_id, document_id@))
                && !old(self).product_index@.contains_key((app_id, product_id@)) && is_valid_model ==> r is Ok,
            r is Ok ==> {
                let n = old(self).documents@.len() as int;
                let d = final(self).documents@[n];
                &&& final(self).documents@.len() == n + 1
                &&& final(self).documents@.subrange(0, n) == old(self).documents@
                &&& d.app_id == app_id && d.document_id@ == document_id@ && d.model_id@ == model_id@
                    && d.product_id@ == product_id@ && d.owner@ == owner@
                &&& d.document_data == DocumentSpecificData::ProductPublish(
                    KPProductPublishData { para_issue_rate, self_issue_rate, refer_count: 0 },
                )
                &&& final(self).doc_powers@[n].content == content_power_spec(
                    old(self).weights,
                    d.document_data,
                    maxima_of(old(self).maxima@, app_id),
                )
                &&& maxima_of(final(self).maxima@, app_id) == maxima_after(
                    d.document_data,
                    maxima_of(old(self).maxima@, app_id),
                )
                &&& final(self).doc_index@ == old(self).doc_index@.insert((app_id, document_id@), n as usize)
                &&& final(self).product_index@ == old(self).product_index@.insert((app_id, product_id@), n as usize)
                &&& final(self).ledger == old(self).ledger
            },
    {
        if !is_valid_app {
            return Err(Error::AppIdInvalid);
        }
        if !is_app_key {
            return Err(Error::AuthIdentityNotAppKey);
        }
        if self.doc_index.contains(app_id, document_id) {
            return Err(Error::DocumentAlreadyExisted);
        }
        if self.product_index.contains(app_id, product_id) {
            return Err(Error::ProductAlreadyExisted);
        }
        if !is_valid_model {
            return Err(Error::ModelNotFoundOrDisabled);
        }
        let doc = KPDocumentData {
            app_id,
            document_id: document_id.clone(),
            model_id: model_id.clone(),
            product_id: product_id.clone(),
            owner: owner.clone(),
            document_type: DocumentType::ProductPublish,
            document_data: DocumentSpecificData::ProductPublish(
                KPProductPublishData { para_issue_rate, self_issue_rate, refer_count: 0 },
            ),
            comment_count: 0,
            comment_total_fee: 0,
            comment_positive_count: 0,
            expert_trend: CommentTrend::Empty,
            platform_trend: CommentTrend::Empty,
        };
        let mut m = self.app_maxima(app_id);
        let mut price = self.max_goods_price;
        let power = process_document_content_power(&doc, &self.weights, &mut m, &mut price);
        let n = self.documents.len();
        let ghost old_docs = self.documents@;
        self.documents.push(doc);
        self.doc_powers.push(power);
        let empty: Vec<u8> = Vec::new();
        self.maxima.insert(app_id, &empty, m);
        self.doc_index.insert(app_id, document_id, n);
        self.product_index.insert(app_id, product_id, n);
        proof {
            assert(self.documents@.subrange(0, n as int) =~= old_docs);
            assert forall|k: (u32, Seq<u8>)| self.product_index@.contains_key(k) implies is_publish(
                self.documents@[#[trigger] self.product_index@[k] as int].document_data,
            ) by {
                if k != (app_id, product_id@) {
                    assert(old(self).product_index@.contains_key(k));
                    assert(self.documents@[self.product_index@[k] as int] == old_docs[self.product_index@[k] as int]);
                }
            }
            assert forall|k: (u32, Seq<u8>)| self.doc_index@.contains_key(k) implies #[trigger] self.doc_index@[k]
                < self.documents@.len() by {
                if k != (app_id, document_id@) {
                    assert(old(self).doc_index@.contains_key(k));
                }
            }
            assert forall|k: (u32, Seq<u8>)| self.product_index@.contains_key(k) implies #[trigger] self.product_index@[k]
                < self.documents@.len() by {
                if k != (app_id, product_id@) {
                    assert(old(self).product_index@.contains_key(k));
                }
            }
            assert forall|k: (u32, Seq<u8>)| self.cart_identify@.contains_key(k) implies #[trigger] self.cart_identify@[k]
                < self.documents@.len() by {
                assert(old(self).cart_identify@.contains_key(k));
            }
            assert forall|k: (u32, Seq<u8>)| self.cart_try@.contains_key(k) implies #[trigger] self.cart_try@[k]
                < self.documents@.len() by {
                assert(old(self).cart_try@.contains_key(k));
            }
        }
        Ok(())
    }

    /// An account's attendance power in an app.
    pub fn account_attend_power(&self, app_id: u32, account: &AccountId) -> (r: PowerSize)
        ensures
            r == attend_of(self.attend_power@, app_id, account@),
    {
        match self.attend_power.get(app_id, account) {
            Some(p) => p,
            None => 0,
        }
    }

    fn count(t: &Table<u32>, app_id: u32, id: &Vec<u8>) -> (r: u32)
        ensures
            r == count_of(t@, (app_id, id@)),
    {
        match t.get(app_id, id) {
            Some(c) => c,
            None => 0,
        }
    }

    /// The number of commodities of an app.
    pub fn app_commodity_total(&self, app_id: u32) -> (r: u32)
        ensures
            r == count_of(self.app_commodity_count@, (app_id, Seq::empty())),
    {
        let empty: Vec<u8> = Vec::new();
        Self::count(&self.app_commodity_count, app_id, &empty)
    }

    /// The number of commodities of a model (of the app, for an empty id).
    pub fn board_commodity_total(&self, app_id: u32, model_id: &Vec<u8>) -> (r: u32)
        ensures
            model_id@.len() == 0 ==> r == count_of(self.app_commodity_count@, (app_id, Seq::empty())),
            model_id@.len() > 0 ==> r == count_of(self.model_commodity_count@, (app_id, model_id@)),
    {
        if model_id.len() == 0 {
            self.app_commodity_total(app_id)
        } else {
            Self::count(&self.model_commodity_count, app_id, model_id)
        }
    }

    /// Stores a new purchase document with its power and indexes, and the
    /// updated publish document of its product.
    fn commit_purchase(
        &mut self,
        is_identify: bool,
        pidx: usize,
        pdata: KPProductPublishData,
        ppower: DocumentPower,
        doc: KPDocumentData,
        power: DocumentPower,
        m: DocumentMaxParams,
        price: PowerSize,
        document_id: &Vec<u8>,
        cart_id: &Vec<u8>,
        counts: (bool, u32, u32),
        model_id: &Vec<u8>,
    )
        requires
            old(self).wf(),
            old(self).documents@.len() < usize::MAX,
            pidx < old(self).documents@.len(),
            counts.1 == count_of(old(self).app_commodity_count@, (doc.app_id, Seq::empty())),
            counts.2 == count_of(old(self).model_commodity_count@, (doc.app_id, model_id@)),
            !counts.0 ==> counts.1 < u32::MAX && counts.2 < u32::MAX,
            is_publish(old(self).documents@[pidx as int].document_data),
            doc.document_id@ == document_id@,
        ensures
            final(self).wf(),
            final(self).ledger == old(self).ledger,
            final(self).weights == old(self).weights,
            final(self).attend_power == old(self).attend_power,
            final(self).product_index == old(self).product_index,
            counts.0 ==> final(self).app_commodity_count == old(self).app_commodity_count
                && final(self).model_commodity_count == old(self).model_commodity_count,
            !counts.0 ==> final(self).app_commodity_count@ == old(self).app_commodity_count@.insert(
                (doc.app_id, Seq::empty()),
                (counts.1 + 1) as u32,
            ) && final(self).model_commodity_count@ == old(self).model_commodity_count@.insert(
                (doc.app_id, model_id@),
                (counts.2 + 1) as u32,
            ),
            final(self).documents@ == old(self).documents@.update(
                pidx as int,
                KPDocumentData {
                    document_data: DocumentSpecificData::ProductPublish(pdata),
                    ..old(self).documents@[pidx as int]
                },
            ).push(doc),
            final(self).doc_powers@ == old(self).doc_powers@.update(pidx as int, ppower).push(power),
            maxima_of(final(self).maxima@, doc.app_id) == m,
            final(self).max_goods_price == price,
            final(self).doc_index@ == old(self).doc_index@.insert(
                (doc.app_id, document_id@),
                old(self).documents@.len() as usize,
            ),
            is_identify ==> final(self).cart_identify@ == old(self).cart_identify@.insert(
                (doc.app_id, cart_id@),
                old(self).documents@.len() as usize,
            ) && final(self).cart_try == old(self).cart_try,
            !is_identify ==> final(self).cart_try@ == old(self).cart_try@.insert(
                (doc.app_id, cart_id@),
                old(self).documents@.len() as usize,
            ) && final(self).cart_identify == old(self).cart_identify,
    {
        let app_id = doc.app_id;
        let ghost old_docs = self.documents@;
        let mut pdoc = self.documents.remove(pidx);
        pdoc.document_data = DocumentSpecificData::ProductPublish(pdata);
        self.documents.insert(pidx, pdoc);
        self.doc_powers.set(pidx, ppower);
        let n = self.documents.len();
        self.documents.push(doc);
        self.doc_powers.push(power);
        let empty: Vec<u8> = Vec::new();
        self.maxima.insert(app_id, &empty, m);
        self.max_goods_price = price;
        self.doc_index.insert(app_id, document_id, n);
        if is_identify {
            self.cart_identify.insert(app_id, cart_id, n);
        } else {
            self.cart_try.insert(app_id, cart_id, n);
        }
        if !counts.0 {
            self.app_commodity_count.insert(app_id, &empty, counts.1 + 1);
            self.model_commodity_count.insert(app_id, model_id, counts.2 + 1);
        }
        proof {
            assert(self.documents@ =~= old_docs.update(
                pidx as int,
                KPDocumentData {
                    document_data: DocumentSpecificData::ProductPublish(pdata),
                    ..old_docs[pidx as int]
                },
            ).push(doc));
            assert forall|k: (u32, Seq<u8>)| self.product_index@.contains_key(k) implies is_publish(
                self.documents@[#[trigger] self.product_index@[k] as int].document_data,
            ) by {
                let j = self.product_index@[k] as int;
                if j != pidx {
                    assert(self.documents@[j] == old_docs[j]);
                }
            }
            assert forall|k: (u32, Seq<u8>)| self.doc_index@.contains_key(k) implies #[trigger] self.doc_index@[k]
                < self.documents@.len() by {
                if k != (app_id, document_id@) {
                    assert(old(self).doc_index@.contains_key(k));
                }
            }
            assert forall|k: (u32, Seq<u8>)| self.cart_identify@.contains_key(k) implies #[trigger] self.cart_identify@[k]
                < self.documents@.len() by {
                if k != (app_id, cart_id@) || !is_identify {
                    assert(old(self).cart_identify@.contains_key(k));
                }
            }
            assert forall|k: (u32, Seq<u8>)| self.cart_try@.contains_key(k) implies #[trigger] self.cart_try@[k]
                < self.documents@.len() by {
                if k != (app_id, cart_id@) || is_identify {
                    assert(old(self).cart_try@.contains_key(k));
                }
            }
        }
    }

    /// Checks a purchase document request and gathers what creating it
    /// needs: the publish document's position and metrics, whether the
    /// commodity already has its other document, and the commodity counts.
    fn purchase_prepare(
        &self,
        is_identify: bool,
        is_valid_app: bool,
        is_app_key: bool,
        app_id: u32,
        document_id: &Vec<u8>,
        product_id: &Vec<u8>,
        cart_id: &Vec<u8>,
    ) -> (r: Result<(usize, KPProductPublishData, bool, u32, u32, Vec<u8>), Error>)
        requires
            self.wf(),
        ensures
            ({
                let e = purchase_doc_rejection(*self, is_valid_app, is_app_key, is_identify, app_id,
                    document_id@, product_id@, cart_id@);
                &&& e is Some ==> r == Err::<(usize, KPProductPublishData, bool, u32, u32, Vec<u8>), Error>(e.unwrap())
                &&& r is Ok ==> e is None
                &&& r is Err && e is None ==> r == Err::<(usize, KPProductPublishData, bool, u32, u32, Vec<u8>), Error>(Error::AddOverflow)
                &&& e is None ==> (r is Ok <==> !counters_overflow(*self, is_identify, app_id, product_id@, cart_id@))
            }),
            r is Ok ==> {
                let (pidx, orig, other, ac, mc, model_id) = r.unwrap();
                &&& self.product_index@.contains_key((app_id, product_id@))
                &&& pidx == self.product_index@[(app_id, product_id@)]
                &&& pidx < self.documents@.len()
                &&& self.documents@[pidx as int].document_data == DocumentSpecificData::ProductPublish(orig)
                &&& orig.refer_count < u64::MAX
                &&& model_id@ == self.documents@[pidx as int].model_id@
                &&& other == if is_identify {
                    self.cart_try@.contains_key((app_id, cart_id@))
                } else {
                    self.cart_identify@.contains_key((app_id, cart_id@))
                }
                &&& ac == count_of(self.app_commodity_count@, (app_id, Seq::empty()))
                &&& mc == count_of(self.model_commodity_count@, (app_id, model_id@))
                &&& !other ==> ac < u32::MAX && mc < u32::MAX
            },
    {
        if !is_valid_app {
            return Err(Error::AppIdInvalid);
        }
        if !is_app_key {
            return Err(Error::AuthIdentityNotAppKey);
        }
        if self.doc_index.contains(app_id, document_id) {
            return Err(Error::DocumentAlreadyExisted);
        }
        let pidx = match self.product_index.get(app_id, product_id) {
            Some(i) => i,
            None => {
                return Err(Error::ProductNotFound);
            },
        };
        if is_identify && self.cart_identify.contains(app_id, cart_id) {
            return Err(Error::DocumentIdentifyAlreadyExisted);
        }
        if !is_identify && self.cart_try.contains(app_id, cart_id) {
            return Err(Error::DocumentTryAlreadyExisted);
        }
        let model_id = self.documents[pidx].model_id.clone();
        let orig_data = match &self.documents[pidx].document_data {
            DocumentSpecificData::ProductPublish(x) => *x,
            _ => vstd::pervasive::unreached(),
        };
        if orig_data.refer_count == u64::MAX {
            return Err(Error::AddOverflow);
        }
        let other_exists = if is_identify {
            self.cart_try.contains(app_id, cart_id)
        } else {
            self.cart_identify.contains(app_id, cart_id)
        };
        let empty: Vec<u8> = Vec::new();
        let app_count = Self::count(&self.app_commodity_count, app_id, &empty);
        let model_count = Self::count(&self.model_commodity_count, app_id, &model_id);
        if !other_exists && (app_count == u32::MAX || model_count == u32::MAX) {
            return Err(Error::AddOverflow);
        }
        Ok((pidx, orig_data, other_exists, app_count, model_count, model_id))
    }

    /// Creates an identify or try document of a commodity of an existing
    /// product: its power is computed, the product's publish document gains
    /// a reference, and the commodity's power is refreshed in the ledger.
    #[verifier::rlimit(100)]
    #[verifier::spinoff_prover]
    fn create_purchase_document(
        &mut self,
        is_identify: bool,
        is_valid_app: bool,
        is_app_key: bool,
        app_id: u32,
        document_id: &Vec<u8>,
        product_id: &Vec<u8>,
        goods_price: PowerSize,
        rates: (PowerSize, PowerSize, PowerSize),
        cart_id: &Vec<u8>,
        owner: &AccountId,
    ) -> (r: Result<(), Error>)
        requires
            old(self).wf(),
            old(self).documents@.len() < usize::MAX,
        ensures
            final(self).wf(),
            r is Err ==> *final(self) == *old(self),
            ({
                let e = purchase_doc_rejection(*old(self), is_valid_app, is_app_key, is_identify, app_id,
                    document_id@, product_id@, cart_id@);
                &&& e is Some ==> r == Err::<(), Error>(e.unwrap())
                &&& r is Ok ==> e is None
                &&& r is Err && e is None ==> r == Err::<(), Error>(Error::AddOverflow)
                &&& e is None ==> (r is Ok <==> !purchase_fails(*old(self), is_identify, app_id, product_id@,
                    goods_price, rates, *cart_id, owner@))
            }),
            r is Ok ==> {
                let n = old(self).documents@.len() as int;
                let d = final(self).documents@[n];
                let pidx = old(self).product_index@[(app_id, product_id@)] as int;
                let m0 = maxima_of(old(self).maxima@, app_id);
                &&& final(self).documents@.len() == n + 1
                &&& d.app_id == app_id && d.document_id@ == document_id@ && d.product_id@ == product_id@
                    && d.owner@ == owner@ && d.model_id@ == old(self).documents@[pidx].model_id@
                &&& final(self).documents@[pidx] == referred_doc(old(self).documents@[pidx], 1)
                &&& final(self).doc_powers@[n].attend == 0
                &&& final(self).doc_powers@[n].content == content_power_spec(old(self).weights, d.document_data, m0)
                &&& maxima_of(final(self).maxima@, app_id) == maxima_after(
                    final(self).documents@[pidx].document_data,
                    maxima_after(d.document_data, m0),
                )
                &&& final(self).max_goods_price == max_price_after(d.document_data, old(self).max_goods_price)
                &&& final(self).doc_index@ == old(self).doc_index@.insert((app_id, document_id@), n as usize)
                &&& purchase_data_matches(d.document_data, is_identify, goods_price, rates, cart_id@)
                &&& ({
                    let other = if is_identify {
                        old(self).cart_try@.contains_key((app_id, cart_id@))
                    } else {
                        old(self).cart_identify@.contains_key((app_id, cart_id@))
                    };
                    let mk = (app_id, old(self).documents@[pidx].model_id@);
                    &&& other ==> final(self).app_commodity_count == old(self).app_commodity_count
                        && final(self).model_commodity_count == old(self).model_commodity_count
                    &&& !other ==> final(self).app_commodity_count@ == old(self).app_commodity_count@.insert(
                        (app_id, Seq::empty()),
                        (count_of(old(self).app_commodity_count@, (app_id, Seq::empty())) + 1) as u32,
                    ) && final(self).model_commodity_count@ == old(self).model_commodity_count@.insert(
                        mk,
                        (count_of(old(self).model_commodity_count@, mk) + 1) as u32,
                    )
                })
                &&& is_identify ==> final(self).cart_identify@ == old(self).cart_identify@.insert(
                    (app_id, cart_id@),
                    n as usize,
                )
                &&& !is_identify ==> final(self).cart_try@ == old(self).cart_try@.insert((app_id, cart_id@), n as usize)
                &&& exists|u: Result<Option<PowerSize>, Error>|
                    #[trigger] identify_or_try_effect(
                        old(self).ledger,
                        final(self).ledger,
                        d,
                        cart_id@,
                        goods_price,
                        final(self).doc_powers@[n],
                        final(self).doc_powers@[pidx],
                        attend_of(old(self).attend_power@, app_id, owner@),
                        final(self).max_goods_price,
                        true,
                        old(self).documents@[pidx].model_id@,
                        old(self).weights,
                        u,
                    ) && u is Ok
            },
    {
        let (pidx, orig_data, other_exists, app_count, model_count, model_id) = match self.purchase_prepare(
            is_identify,
            is_valid_app,
            is_app_key,
            app_id,
            document_id,
            product_id,
            cart_id,
        ) {
            Ok(p) => p,
            Err(e) => {
                return Err(e);
            },
        };
        let data = if is_identify {
            DocumentSpecificData::ProductIdentify(KPProductIdentifyData {
                goods_price,
                ident_rate: rates.0,
                ident_consistence: rates.1,
                seller_consistence: rates.2,
                cart_id: cart_id.clone(),
            })
        } else {
            DocumentSpecificData::ProductTry(KPProductTryData {
                goods_price,
                offset_rate: rates.0,
                true_rate: rates.1,
                seller_consistence: rates.2,
                cart_id: cart_id.clone(),
            })
        };
        let doc = KPDocumentData {
            app_id,
            document_id: document_id.clone(),
            model_id: model_id.clone(),
            product_id: product_id.clone(),
            owner: owner.clone(),
            document_type: if is_identify { DocumentType::ProductIdentify } else { DocumentType::ProductTry },
            document_data: data,
            comment_count: 0,
            comment_total_fee: 0,
            comment_positive_count: 0,
            expert_trend: CommentTrend::Empty,
            platform_trend: CommentTrend::Empty,
        };
        let mut m = self.app_maxima(app_id);
        let mut price = self.max_goods_price;
        let power = process_document_content_power(&doc, &self.weights, &mut m, &mut price);

        let mut pdata = orig_data;
        let mut ppower = self.doc_powers[pidx];
        refer_publish_data(&mut pdata, &mut ppower, 1, &self.weights, &mut m);
        let owner_attend = self.account_attend_power(app_id, owner);
        let model = Some(model_id.clone());
        match self.ledger.process_commodity_power(&doc, &power, &ppower, owner_attend, price, &model, &self.weights) {
            Ok(_) => {},
            Err(e) => {
                return Err(e);
            },
        }
        self.commit_purchase(
            is_identify,
            pidx,
            pdata,
            ppower,
            doc,
            power,
            m,
            price,
            document_id,
            cart_id,
            (other_exists, app_count, model_count),
            &model_id,
        );
        proof {
            let n = old(self).documents@.len() as int;
            assert(self.documents@[n] == doc);
            assert(self.doc_powers@[n] == power);
            assert(self.doc_powers@[pidx as int] == ppower);
            assert(self.documents@[pidx as int] == referred_doc(old(self).documents@[pidx as int], 1));
            assert(maxima_of(self.maxima@, app_id) == m);
            assert(self.max_goods_price == price);
            assert(doc.model_id@ == old(self).documents@[pidx as int].model_id@);
        }
        Ok(())
    }

    /// Creates a commodity's identify document.
    pub fn create_product_identify_document(
        &mut self,
        is_valid_app: bool,
        is_app_key: bool,
        app_id: u32,
        document_id: &Vec<u8>,
        product_id: &Vec<u8>,
        goods_price: PowerSize,
        ident_rate: PowerSize,
        ident_consistence: PowerSize,
        seller_consistence: PowerSize,
        cart_id: &Vec<u8>,
        owner: &AccountId,
    ) -> (r: Result<(), Error>)
        requires
            old(self).wf(),
            old(self).documents@.len() < usize::MAX,
        ensures
            final(self).wf(),
            r is Err ==> *final(self) == *old(self),
            ({
                let e = purchase_doc_rejection(*old(self), is_valid_app, is_app_key, true, app_id,
                    document_id@, product_id@, cart_id@);
                &&& e is Some ==> r == Err::<(), Error>(e.unwrap())
                &&& r is Ok ==> e is None
                &&& r is Err && e is None ==> r == Err::<(), Error>(Error::AddOverflow)
            }),
            is_valid_app && is_app_key && purchase_doc_rejection(*old(self), is_valid_app, is_app_key, true, app_id,
                document_id@, product_id@, cart_id@) is None ==> (r is Ok <==> !purchase_fails(*old(self), true,
                app_id, product_id@, goods_price, (ident_rate, ident_consistence, seller_consistence), *cart_id, owner@)),
            r is Ok ==> {
                let n = old(self).documents@.len() as int;
                let d = final(self).documents@[n];
                let pidx = old(self).product_index@[(app_id, product_id@)] as int;
                let m0 = maxima_of(old(self).maxima@, app_id);
                &&& final(self).documents@.len() == n + 1
                &&& d.app_id == app_id && d.document_id@ == document_id@ && d.product_id@ == product_id@
                    && d.owner@ == owner@ && d.model_id@ == old(self).documents@[pidx].model_id@
                &&& final(self).documents@[pidx] == referred_doc(old(self).documents@[pidx], 1)
                &&& final(self).doc_powers@[n].attend == 0
                &&& final(self).doc_powers@[n].content == content_power_spec(old(self).weights, d.document_data, m0)
                &&& maxima_of(final(self).maxima@, app_id) == maxima_after(
                    final(self).documents@[pidx].document_data,
                    maxima_after(d.document_data, m0),
                )
                &&& final(self).max_goods_price == max_price_after(d.document_data, old(self).max_goods_price)
                &&& final(self).doc_index@ == old(self).doc_index@.insert((app_id, document_id@), n as usize)
                &&& purchase_data_matches(d.document_data, true, goods_price, (ident_rate, ident_consistence, seller_consistence), cart_id@)
                &&& ({
                    let other = old(self).cart_try@.contains_key((app_id, cart_id@));
                    let mk = (app_id, old(self).documents@[pidx].model_id@);
                    &&& other ==> final(self).app_commodity_count == old(self).app_commodity_count
                        && final(self).model_commodity_count == old(self).model_commodity_count
                    &&& !other ==> final(self).app_commodity_count@ == old(self).app_commodity_count@.insert(
                        (app_id, Seq::empty()),
                        (count_of(old(self).app_commodity_count@, (app_id, Seq::empty())) + 1) as u32,
                    ) && final(self).model_commodity_count@ == old(self).model_commodity_count@.insert(
                        mk,
                        (count_of(old(self).model_commodity_count@, mk) + 1) as u32,
                    )
                })
                &&& final(self).cart_identify@ == old(self).cart_identify@.insert(
                    (app_id, cart_id@),
                    n as usize,
                )
                &&& exists|u: Result<Option<PowerSize>, Error>|
                    #[trigger] identify_or_try_effect(
                        old(self).ledger,
                        final(self).ledger,
                        d,
                        cart_id@,
                        goods_price,
                        final(self).doc_powers@[n],
                        final(self).doc_powers@[pidx],
                        attend_of(old(self).attend_power@, app_id, owner@),
                        final(self).max_goods_price,
                        true,
                        old(self).documents@[pidx].model_id@,
                        old(self).weights,
                        u,
                    ) && u is Ok
            },
            r is Ok ==> final(self).documents@.len() == old(self).documents@.len() + 1
                && purchase_data_matches(
                final(self).documents@.last().document_data,
                true,
                goods_price,
                (ident_rate, ident_consistence, seller_consistence),
                cart_id@,
            ) && final(self).cart_identify@ == old(self).cart_identify@.insert(
                (app_id, cart_id@),
                old(self).documents@.len() as usize,
            ),
    {
        self.create_purchase_document(
            true,
            is_valid_app,
            is_app_key,
            app_id,
            document_id,
            product_id,
            goods_price,
            (ident_rate, ident_consistence, seller_consistence),
            cart_id,
            owner,
        )
    }

    /// Creates a commodity's try document.
    pub fn create_product_try_document(
        &mut self,
        is_valid_app: bool,
        is_app_key: bool,
        app_id: u32,
        document_id: &Vec<u8>,
        product_id: &Vec<u8>,
        goods_price: PowerSize,
        offset_rate: PowerSize,
        true_rate: PowerSize,
        seller_consistence: PowerSize,
        cart_id: &Vec<u8>,
        owner: &AccountId,
    ) -> (r: Result<(), Error>)
        requires
            old(self).wf(),
            old(self).documents@.len() < usize::MAX,
        ensures
            final(self).wf(),
            r is Err ==> *final(self) == *old(self),
            ({
                let e = purchase_doc_rejection(*old(self), is_valid_app, is_app_key, false, app_id,
                    document_id@, product_id@, cart_id@);
                &&& e is Some ==> r == Err::<(), Error>(e.unwrap())
                &&& r is Ok ==> e is None
                &&& r is Err && e is None ==> r == Err::<(), Error>(Error::AddOverflow)
            }),
            is_valid_app && is_app_key && purchase_doc_rejection(*old(self), is_valid_app, is_app_key, false, app_id,
                document_id@, product_id@, cart_id@) is None ==> (r is Ok <==> !purchase_fails(*old(self), false,
                app_id, product_id@, goods_price, (offset_rate, true_rate, seller_consistence), *cart_id, owner@)),
            r is Ok ==> {
                let n = old(self).documents@.len() as int;
                let d = final(self).documents@[n];
                let pidx = old(self).product_index@[(app_id, product_id@)] as int;
                let m0 = maxima_of(old(self).maxima@, app_id);
                &&& final(self).documents@.len() == n + 1
                &&& d.app_id == app_id && d.document_id@ == document_id@ && d.product_id@ == product_id@
                    && d.owner@ == owner@ && d.model_id@ == old(self).documents@[pidx].model_id@
                &&& final(self).documents@[pidx] == referred_doc(old(self).documents@[pidx], 1)
                &&& final(self).doc_powers@[n].attend == 0
                &&& final(self).doc_powers@[n].content == content_power_spec(old(self).weights, d.document_data, m0)
                &&& maxima_of(final(self).maxima@, app_id) == maxima_after(
                    final(self).documents@[pidx].document_data,
                    maxima_after(d.document_data, m0),
                )
                &&& final(self).max_goods_price == max_price_after(d.document_data, old(self).max_goods_price)
                &&& final(self).doc_index@ == old(self).doc_index@.insert((app_id, document_id@), n as usize)
                &&& purchase_data_matches(d.document_data, false, goods_price, (offset_rate, true_rate, seller_consistence), cart_id@)
                &&& ({
                    let other = old(self).cart_identify@.contains_key((app_id, cart_id@));
                    let mk = (app_id, old(self).documents@[pidx].model_id@);
                    &&& other ==> final(self).app_commodity_count == old(self).app_commodity_count
                        && final(self).model_commodity_count == old(self).model_commodity_count
                    &&& !other ==> final(self).app_commodity_count@ == old(self).app_commodity_count@.insert(
                        (app_id, Seq::empty()),
                        (count_of(old(self).app_commodity_count@, (app_id, Seq::empty())) + 1) as u32,
                    ) && final(self).model_commodity_count@ == old(self).model_commodity_count@.insert(
                        mk,
                        (count_of(old(self).model_commodity_count@, mk) + 1) as u32,
                    )
                })
                &&& final(self).cart_try@ == old(self).cart_try@.insert((app_id, cart_id@), n as usize)
                &&& exists|u: Result<Option<PowerSize>, Error>|
                    #[trigger] identify_or_try_effect(
                        old(self).ledger,
                        final(self).ledger,
                        d,
                        cart_id@,
                        goods_price,
                        final(self).doc_powers@[n],
                        final(self).doc_powers@[pidx],
                        attend_of(old(self).attend_power@, app_id, owner@),
                        final(self).max_goods_price,
                        true,
                        old(self).documents@[pidx].model_id@,
                        old(self).weights,
                        u,
                    ) && u is Ok
            },
            r is Ok ==> final(self).documents@.len() == old(self).documents@.len() + 1
                && purchase_data_matches(
                final(self).documents@.last().document_data,
                false,
                goods_price,
                (offset_rate, true_rate, seller_consistence),
                cart_id@,
            ) && final(self).cart_try@ == old(self).cart_try@.insert(
                (app_id, cart_id@),
                old(self).documents@.len() as usize,
            ),
    {
        self.create_purchase_document(
            false,
            is_valid_app,
            is_app_key,
            app_id,
            document_id,
            product_id,
            goods_price,
            (offset_rate, true_rate, seller_consistence),
            cart_id,
            owner,
        )
    }

    fn max_record(t: &Table<CommentMaxRecord>, app_id: u32, id: &Vec<u8>) -> (r: CommentMaxRecord)
        ensures
            r == (if t@.contains_key((app_id, id@)) {
                t@[(app_id, id@)]
            } else {
                CommentMaxRecord { max_count: 0, max_fee: 0, max_positive: 0, max_unit_fee: 0 }
            }),
    {
        match t.get(app_id, id) {
            Some(m) => m,
            None => CommentMaxRecord::new(),
        }
    }

    /// Records a comment on a document: the comment's power is computed
    /// (see `process_comment_power`) and the document's commodity power is
    /// refreshed. Rejected for an invalid app or key, a comment id already
    /// used, an unknown document, or aggregates that would overflow.
    #[verifier::rlimit(100)]
    #[verifier::spinoff_prover]
    pub fn create_comment(
        &mut self,
        is_valid_app: bool,
        is_app_key: bool,
        is_expert: bool,
        is_platform: bool,
        comment: &KPCommentData,
    ) -> (r: Result<CommentPowerOutcome, Error>)
        requires
            old(self).wf(),
        ensures
            final(self).wf(),
            r is Err ==> *final(self) == *old(self),
            !is_valid_app ==> r is Err && r->Err_0 == Error::AppIdInvalid,
            is_valid_app && !is_app_key ==> r is Err && r->Err_0 == Error::AuthIdentityNotAppKey,
            is_valid_app && is_app_key && old(self).comment_ids@.contains_key((comment.app_id, comment.comment_id@))
                ==> r is Err && r->Err_0 == Error::CommentAlreadyExisted,
            is_valid_app && is_app_key && !old(self).comment_ids@.contains_key((comment.app_id, comment.comment_id@))
                && !old(self).doc_index@.contains_key((comment.app_id, comment.document_id@)) ==> r is Err
                && r->Err_0 == Error::DocumentNotFound,
            is_valid_app && is_app_key && !old(self).comment_ids@.contains_key((comment.app_id, comment.comment_id@))
                && old(self).doc_index@.contains_key((comment.app_id, comment.document_id@)) ==> (r is Ok
                <==> !comment_fails(*old(self), *comment, is_expert, is_platform)),
            r is Err && is_valid_app && is_app_key && !old(self).comment_ids@.contains_key(
                (comment.app_id, comment.comment_id@),
            ) && old(self).doc_index@.contains_key((comment.app_id, comment.document_id@)) ==> r->Err_0
                == Error::AddOverflow,
            r is Ok ==> {
                let i = old(self).doc_index@[(comment.app_id, comment.document_id@)] as int;
                let d0 = old(self).documents@[i];
                let d1 = final(self).documents@[i];
                let a0 = if old(self).comment_accounts@.contains_key((comment.app_id, comment.sender@)) {
                    old(self).comment_accounts@[(comment.app_id, comment.sender@)]
                } else {
                    KPCommentAccountRecord { count: 0, fees: 0, positive_count: 0 }
                };
                &&& final(self).comment_ids@ == old(self).comment_ids@.insert((comment.app_id, comment.comment_id@), true)
                &&& final(self).documents@.len() == old(self).documents@.len()
                &&& d1.comment_count == d0.comment_count + 1
                &&& d1.comment_total_fee == d0.comment_total_fee + comment.comment_fee
                &&& d1.expert_trend == doc_after_comment(d0, *comment, is_expert, is_platform).expert_trend
                &&& d1.platform_trend == doc_after_comment(d0, *comment, is_expert, is_platform).platform_trend
                &&& final(self).comment_accounts@ == old(self).comment_accounts@.insert(
                    (comment.app_id, comment.sender@),
                    account_after_comment(a0, *comment),
                )
                &&& final(self).attend_power@ == old(self).attend_power@.insert(
                    (comment.app_id, comment.sender@),
                    r->Ok_0.account_power,
                )
                &&& final(self).comment_pools@.len() == old(self).comment_pools@.len() + 1
            },
    {
        if !is_valid_app {
            return Err(Error::AppIdInvalid);
        }
        if !is_app_key {
            return Err(Error::AuthIdentityNotAppKey);
        }
        let app_id = comment.app_id;
        if self.comment_ids.contains(app_id, &comment.comment_id) {
            return Err(Error::CommentAlreadyExisted);
        }
        let idx = match self.doc_index.get(app_id, &comment.document_id) {
            Some(i) => i,
            None => {
                return Err(Error::DocumentNotFound);
            },
        };
        let d = &self.documents[idx];
        let mut account = match self.comment_accounts.get(app_id, &comment.sender) {
            Some(a) => a,
            None => KPCommentAccountRecord { count: 0, fees: 0, positive_count: 0 },
        };
        if account.count == u64::MAX || account.positive_count == u64::MAX || d.comment_count == u64::MAX
            || d.comment_positive_count == u64::MAX || account.fees > u64::MAX - comment.comment_fee
            || d.comment_total_fee > u64::MAX - comment.comment_fee {
            return Err(Error::AddOverflow);
        }
        let mut local = KPDocumentData {
            app_id: d.app_id,
            document_id: d.document_id.clone(),
            model_id: d.model_id.clone(),
            product_id: d.product_id.clone(),
            owner: d.owner.clone(),
            document_type: d.document_type,
            document_data: copy_data(&d.document_data),
            comment_count: d.comment_count,
            comment_total_fee: d.comment_total_fee,
            comment_positive_count: d.comment_positive_count,
            expert_trend: d.expert_trend,
            platform_trend: d.platform_trend,
        };
        let ghost d0 = *d;
        let mut power = self.doc_powers[idx];
        let empty: Vec<u8> = Vec::new();
        let mut account_max = Self::max_record(&self.account_comment_max, app_id, &empty);
        let mut doc_max = Self::max_record(&self.doc_comment_max, app_id, &empty);
        let mut base = match self.compare_base.get(app_id, &comment.document_id) {
            Some(b) => Some(b),
            None => None,
        };
        let ghost local0 = local;
        let ghost power0 = power;
        let ghost account0 = account;
        let ghost amax0 = account_max;
        let ghost dmax0 = doc_max;
        let ghost base0 = base;
        let outcome = process_comment_power(
            comment,
            &mut local,
            &mut power,
            &mut account,
            &mut account_max,
            &mut doc_max,
            &mut base,
            is_expert,
            is_platform,
            &self.weights,
        );
        let owner_attend = if crate::table::bytes_eq(&local.owner, &comment.sender) {
            outcome.account_power
        } else {
            self.account_attend_power(app_id, &local.owner)
        };
        let (publish_power, model) = match self.product_index.get(app_id, &local.product_id) {
            Some(p) => (self.doc_powers[p], Some(self.documents[p].model_id.clone())),
            None => (DocumentPower::zero(), None),
        };
        proof {
            let app = app_id;
            let d0 = old(self).documents@[idx as int];
            assert(d0 == old(self).documents@[old(self).doc_index@[(app, comment.document_id@)] as int]);
            assert(account0 == account_record_of(old(self).comment_accounts@, (app, comment.sender@)));
            assert(amax0 == max_of(old(self).account_comment_max@, (app, Seq::<u8>::empty())));
            assert(dmax0 == max_of(old(self).doc_comment_max@, (app, Seq::<u8>::empty())));
            assert(comment_doc_power(self.weights, *comment, local0, power0, dmax0, base0, is_expert, is_platform)
                == comment_doc_power(self.weights, *comment, d0, power0, dmax0, base0, is_expert, is_platform));
            assert(power == comment_doc_power(self.weights, *comment, d0, power0, dmax0, base0, is_expert,
                is_platform));
            assert(outcome.account_power == comment_account_power(self.weights, *comment, account0, amax0,
                d0.document_type));
            assert(local.document_data == local0.document_data);
            assert(same_data(local.document_data, d0.document_data));
            assert(refresh_fails(self.ledger, local.app_id, local.document_data, local.owner@, power, publish_power,
                owner_attend, self.max_goods_price, model is Some, self.weights) == refresh_fails(self.ledger,
                d0.app_id, d0.document_data, d0.owner@, power, publish_power, owner_attend, self.max_goods_price,
                model is Some, self.weights));
            let pk = (app, d0.product_id@);
            assert(local.product_id@ == d0.product_id@);
            assert((model is Some) == old(self).product_index@.contains_key(pk));
            assert(publish_power == if old(self).product_index@.contains_key(pk) {
                old(self).doc_powers@[old(self).product_index@[pk] as int]
            } else {
                DocumentPower { attend: 0, content: 0, judge: 0 }
            });
            assert(local.owner@ == d0.owner@);
            assert(owner_attend == if d0.owner@ == comment.sender@ {
                outcome.account_power
            } else {
                attend_of(old(self).attend_power@, app, d0.owner@)
            });
            assert(self.ledger == old(self).ledger);
            assert(self.max_goods_price == old(self).max_goods_price);
            assert(self.weights == old(self).weights);
            assert(power0 == old(self).doc_powers@[old(self).doc_index@[(app, comment.document_id@)] as int]);
            assert(base0 == if old(self).compare_base@.contains_key((app, comment.document_id@)) {
                Some(old(self).compare_base@[(app, comment.document_id@)])
            } else {
                None
            });
            assert(local.app_id == d0.app_id);
            assert(comment_fails(*old(self), *comment, is_expert, is_platform) == refresh_fails(self.ledger, local.app_id,
                local.document_data, local.owner@, power, publish_power, owner_attend, self.max_goods_price,
                model is Some, self.weights));
        }
        match self.ledger.process_commodity_power(
            &local,
            &power,
            &publish_power,
            owner_attend,
            self.max_goods_price,
            &model,
            &self.weights,
        ) {
            Ok(_) => {},
            Err(e) => {
                return Err(e);
            },
        }
        let ghost old_docs = self.documents@;
        self.documents.set(idx, local);
        self.doc_powers.set(idx, power);
        self.comment_accounts.insert(app_id, &comment.sender, account);
        self.account_comment_max.insert(app_id, &empty, account_max);
        self.doc_comment_max.insert(app_id, &empty, doc_max);
        match base {
            Some(b) => self.compare_base.insert(app_id, &comment.document_id, b),
            None => {},
        }
        self.attend_power.insert(app_id, &comment.sender, outcome.account_power);
        self.comment_pools.push((app_id, comment.document_id.clone(), outcome.pool_item.clone()));
        self.comment_ids.insert(app_id, &comment.comment_id, true);
        proof {
            assert forall|k: (u32, Seq<u8>)| self.product_index@.contains_key(k) implies is_publish(
                self.documents@[#[trigger] self.product_index@[k] as int].document_data,
            ) by {
                let j = self.product_index@[k] as int;
                if j != idx {
                    assert(self.documents@[j] == old_docs[j]);
                }
            }
        }
        Ok(outcome)
    }

    /// Creates a choose or model create document: its power is computed,
    /// and its power plus its owner's attendance power is recorded.
    fn create_misc_document(
        &mut self,
        is_valid_app: bool,
        is_app_key: bool,
        is_valid_model: bool,
        app_id: u32,
        document_id: &Vec<u8>,
        model_id: &Vec<u8>,
        product_id: &Vec<u8>,
        data: DocumentSpecificData,
        owner: &AccountId,
    ) -> (r: Result<PowerSize, Error>)
        requires
            old(self).wf(),
            old(self).documents@.len() < usize::MAX,
            data is ProductChoose || data is ModelCreate,
        ensures
            final(self).wf(),
            r is Err ==> *final(self) == *old(self),
            !is_valid_app ==> r == Err::<PowerSize, Error>(Error::AppIdInvalid),
            is_valid_app && !is_app_key ==> r == Err::<PowerSize, Error>(Error::AuthIdentityNotAppKey),
            is_valid_app && is_app_key && old(self).doc_index@.contains_key((app_id, document_id@)) ==> r
                == Err::<PowerSize, Error>(Error::DocumentAlreadyExisted),
            is_valid_app && is_app_key && !old(self).doc_index@.contains_key((app_id, document_id@))
                && !is_valid_model ==> r == Err::<PowerSize, Error>(Error::ModelNotFoundOrDisabled),
            is_valid_app && is_app_key && !old(self).doc_index@.contains_key((app_id, document_id@))
                && is_valid_model ==> (r is Ok <==> attend_of(old(self).attend_power@, app_id, owner@)
                + new_doc_power(old(self).weights, data, maxima_of(old(self).maxima@, app_id)).total_spec()
                <= u64::MAX),
            r is Err ==> r == Err::<PowerSize, Error>(Error::AppIdInvalid) || r == Err::<PowerSize, Error>(
                Error::AuthIdentityNotAppKey) || r == Err::<PowerSize, Error>(Error::DocumentAlreadyExisted) || r
                == Err::<PowerSize, Error>(Error::ModelNotFoundOrDisabled) || r == Err::<PowerSize, Error>(
                Error::AddOverflow),
            r is Ok ==> r.unwrap() == attend_of(old(self).attend_power@, app_id, owner@) + new_doc_power(
                old(self).weights,
                data,
                maxima_of(old(self).maxima@, app_id),
            ).total_spec(),
            r is Ok ==> {
                let n = old(self).documents@.len() as int;
                let d = final(self).documents@[n];
                &&& final(self).documents@.len() == n + 1
                &&& final(self).documents@.subrange(0, n) == old(self).documents@
                &&& d.app_id == app_id && d.document_id@ == document_id@ && d.document_data == data
                &&& final(self).doc_powers@[n].content == content_power_spec(
                    old(self).weights,
                    data,
                    maxima_of(old(self).maxima@, app_id),
                )
                &&& r.unwrap() == attend_of(old(self).attend_power@, app_id, owner@)
                    + final(self).doc_powers@[n].total_spec()
                &&& final(self).misc_power@ == old(self).misc_power@.insert((app_id, document_id@), r.unwrap())
                &&& final(self).doc_index@ == old(self).doc_index@.insert((app_id, document_id@), n as usize)
                &&& final(self).ledger == old(self).ledger
            },
    {
        if !is_valid_app {
            return Err(Error::AppIdInvalid);
        }
        if !is_app_key {
            return Err(Error::AuthIdentityNotAppKey);
        }
        if self.doc_index.contains(app_id, document_id) {
            return Err(Error::DocumentAlreadyExisted);
        }
        if !is_valid_model {
            return Err(Error::ModelNotFoundOrDisabled);
        }
        let is_choose = match &data {
            DocumentSpecificData::ProductChoose(_) => true,
            _ => false,
        };
        let doc = KPDocumentData {
            app_id,
            document_id: document_id.clone(),
            model_id: model_id.clone(),
            product_id: product_id.clone(),
            owner: owner.clone(),
            document_type: if is_choose { DocumentType::ProductChoose } else { DocumentType::ModelCreate },
            document_data: data,
            comment_count: 0,
            comment_total_fee: 0,
            comment_positive_count: 0,
            expert_trend: CommentTrend::Empty,
            platform_trend: CommentTrend::Empty,
        };
        let mut m = self.app_maxima(app_id);
        let mut price = self.max_goods_price;
        let power = process_document_content_power(&doc, &self.weights, &mut m, &mut price);
        let owner_attend = self.account_attend_power(app_id, owner);
        let none: Option<Vec<u8>> = None;
        let misc = match self.ledger.process_commodity_power(
            &doc,
            &power,
            &DocumentPower::zero(),
            owner_attend,
            price,
            &none,
            &self.weights,
        ) {
            Ok(Some(p)) => p,
            Ok(None) => vstd::pervasive::unreached(),
            Err(e) => {
                return Err(e);
            },
        };
        let n = self.documents.len();
        let ghost old_docs = self.documents@;
        self.documents.push(doc);
        self.doc_powers.push(power);
        let empty: Vec<u8> = Vec::new();
        self.maxima.insert(app_id, &empty, m);
        self.doc_index.insert(app_id, document_id, n);
        self.misc_power.insert(app_id, document_id, misc);
        proof {
            assert(self.documents@.subrange(0, n as int) =~= old_docs);
            assert forall|k: (u32, Seq<u8>)| self.product_index@.contains_key(k) implies is_publish(
                self.documents@[#[trigger] self.product_index@[k] as int].document_data,
            ) by {
                assert(self.documents@[self.product_index@[k] as int] == old_docs[self.product_index@[k] as int]);
            }
            assert forall|k: (u32, Seq<u8>)| self.doc_index@.contains_key(k) implies #[trigger] self.doc_index@[k]
                < self.documents@.len() by {
                if k != (app_id, document_id@) {
                    assert(old(self).doc_index@.contains_key(k));
                }
            }
            assert forall|k: (u32, Seq<u8>)| self.cart_identify@.contains_key(k) implies #[trigger] self.cart_identify@[k]
                < self.documents@.len() by {
                assert(old(self).cart_identify@.contains_key(k));
            }
            assert forall|k: (u32, Seq<u8>)| self.cart_try@.contains_key(k) implies #[trigger] self.cart_try@[k]
                < self.documents@.len() by {
                assert(old(self).cart_try@.contains_key(k));
            }
            assert forall|k: (u32, Seq<u8>)| self.product_index@.contains_key(k) implies #[trigger] self.product_index@[k]
                < self.documents@.len() by {
                assert(old(self).product_index@.contains_key(k));
            }
        }
        Ok(misc)
    }

    /// Creates a product choose document.
    pub fn create_product_choose_document(
        &mut self,
        is_valid_app: bool,
        is_app_key: bool,
        app_id: u32,
        document_id: &Vec<u8>,
        model_id: &Vec<u8>,
        product_id: &Vec<u8>,
        sell_count: PowerSize,
        try_count: PowerSize,
        owner: &AccountId,
    ) -> (r: Result<PowerSize, Error>)
        requires
            old(self).wf(),
            old(self).documents@.len() < usize::MAX,
        ensures
            final(self).wf(),
            r is Err ==> *final(self) == *old(self),
            !is_valid_app ==> r == Err::<PowerSize, Error>(Error::AppIdInvalid),
            is_valid_app && !is_app_key ==> r == Err::<PowerSize, Error>(Error::AuthIdentityNotAppKey),
            is_valid_app && is_app_key && old(self).doc_index@.contains_key((app_id, document_id@)) ==> r
                == Err::<PowerSize, Error>(Error::DocumentAlreadyExisted),
            is_valid_app && is_app_key && !old(self).doc_index@.contains_key((app_id, document_id@)) ==> (r is Ok
                <==> attend_of(old(self).attend_power@, app_id, owner@) + new_doc_power(
                old(self).weights,
                DocumentSpecificData::ProductChoose(KPProductChooseData { sell_count, try_count }),
                maxima_of(old(self).maxima@, app_id),
            ).total_spec() <= u64::MAX),
            r is Ok ==> r.unwrap() == attend_of(old(self).attend_power@, app_id, owner@) + new_doc_power(
                old(self).weights,
                DocumentSpecificData::ProductChoose(KPProductChooseData { sell_count, try_count }),
                maxima_of(old(self).maxima@, app_id),
            ).total_spec(),
            r is Ok ==> final(self).documents@.len() == old(self).documents@.len() + 1
                && final(self).documents@.last().document_data == DocumentSpecificData::ProductChoose(
                KPProductChooseData { sell_count, try_count },
            ) && final(self).misc_power@ == old(self).misc_power@.insert((app_id, document_id@), r.unwrap()),
    {
        self.create_misc_document(
            is_valid_app,
            is_app_key,
            true,
            app_id,
            document_id,
            model_id,
            product_id,
            DocumentSpecificData::ProductChoose(KPProductChooseData { sell_count, try_count }),
            owner,
        )
    }

    /// Creates a model create document of a valid model.
    pub fn create_model_create_document(
        &mut self,
        is_valid_app: bool,
        is_app_key: bool,
        is_valid_model: bool,
        app_id: u32,
        document_id: &Vec<u8>,
        model_id: &Vec<u8>,
        product_id: &Vec<u8>,
        producer_count: PowerSize,
        product_count: PowerSize,
        owner: &AccountId,
    ) -> (r: Result<PowerSize, Error>)
        requires
            old(self).wf(),
            old(self).documents@.len() < usize::MAX,
        ensures
            final(self).wf(),
            r is Err ==> *final(self) == *old(self),
            !is_valid_app ==> r == Err::<PowerSize, Error>(Error::AppIdInvalid),
            is_valid_app && !is_app_key ==> r == Err::<PowerSize, Error>(Error::AuthIdentityNotAppKey),
            is_valid_app && is_app_key && old(self).doc_index@.contains_key((app_id, document_id@)) ==> r
                == Err::<PowerSize, Error>(Error::DocumentAlreadyExisted),
            is_valid_app && is_app_key && !old(self).doc_index@.contains_key((app_id, document_id@))
                && !is_valid_model ==> r == Err::<PowerSize, Error>(Error::ModelNotFoundOrDisabled),
            is_valid_app && is_app_key && !old(self).doc_index@.contains_key((app_id, document_id@))
                && is_valid_model ==> (r is Ok <==> attend_of(old(self).attend_power@, app_id, owner@)
                + new_doc_power(
                old(self).weights,
                DocumentSpecificData::ModelCreate(KPModelCreateData { producer_count, product_count }),
                maxima_of(old(self).maxima@, app_id),
            ).total_spec() <= u64::MAX),
            r is Ok ==> r.unwrap() == attend_of(old(self).attend_power@, app_id, owner@) + new_doc_power(
                old(self).weights,
                DocumentSpecificData::ModelCreate(KPModelCreateData { producer_count, product_count }),
                maxima_of(old(self).maxima@, app_id),
            ).total_spec(),
            r is Ok ==> final(self).documents@.len() == old(self).documents@.len() + 1
                && final(self).documents@.last().document_data == DocumentSpecificData::ModelCreate(
                KPModelCreateData { producer_count, product_count },
            ) && final(self).misc_power@ == old(self).misc_power@.insert((app_id, document_id@), r.unwrap()),
    {
        self.create_misc_document(
            is_valid_app,
            is_app_key,
            is_valid_model,
            app_id,
            document_id,
            model_id,
            product_id,
            DocumentSpecificData::ModelCreate(KPModelCreateData { producer_count, product_count }),
            owner,
        )
    }

    /// The model of a product, as its publish document names it.
    pub fn get_model_id_from_product(&self, app_id: u32, product_id: &Vec<u8>) -> (r: Option<Vec<u8>>)
        requires
            self.wf(),
        ensures
            self.product_index@.contains_key((app_id, product_id@)) <==> r is Some,
            r is Some ==> r.unwrap()@ == self.documents@[self.product_index@[(app_id, product_id@)] as int].model_id@,
    {
        match self.product_index.get(app_id, product_id) {
            Some(i) => Some(self.documents[i].model_id.clone()),
            None => None,
        }
    }

    /// The publish document id of a document's product.
    pub fn get_pub_docid_from_doc(&self, app_id: u32, doc_id: &Vec<u8>) -> (r: Option<Vec<u8>>)
        requires
            self.wf(),
        ensures
            ({
                let has_doc = self.doc_index@.contains_key((app_id, doc_id@));
                let pk = (app_id, self.documents@[self.doc_index@[(app_id, doc_id@)] as int].product_id@);
                &&& r is Some <==> has_doc && self.product_index@.contains_key(pk)
                &&& r is Some ==> r.unwrap()@ == self.documents@[self.product_index@[pk] as int].document_id@
            }),
    {
        match self.doc_index.get(app_id, doc_id) {
            Some(i) => {
                let product_id = &self.documents[i].product_id;
                match self.product_index.get(app_id, product_id) {
                    Some(p) => Some(self.documents[p].document_id.clone()),
                    None => None,
                }
            },
            None => None,
        }
    }
}

} // verus!
