//! Settlement machines: per-cycle model income and rewards, redemption of
//! an app's cycle income against an escrow ceiling, and the exchange of a
//! one-off financing proposal against its quota. Each redemption is
//! confirmed by a finance delegate, or compensated from the delegate's
//! deposit once its window has passed.

use vstd::prelude::*;
use crate::arith::{
    per_from_rational, per_mul, permill_from_rational, permill_mul, permill_mul_balance,
    lemma_from_rational_bounded, PERMILL_ONE,
};
use crate::error::Error;
use crate::power::AccountId;
use crate::stage::{BlockNumber, ModelIncomeStage};
use crate::table::bytes_eq;

verus! {

/// A balance.
pub type Balance = u128;

/// Balance units in one whole currency unit.
pub const UNIT: u128 = 1_000_000_000_000;

/// Where a redemption stands.
#[derive(Clone, Copy, Debug, PartialEq, Eq, Structural)]
pub enum ExchangeStatus {
    /// Reserved, waiting for the delegate.
    Initiated,
    /// Paid by the delegate and burned.
    Confirmed,
    /// Unconfirmed, and made good from the delegate's deposit.
    Compensated,
    /// Unconfirmed, and the delegate's deposit could not make it good.
    CompensationFailed,
}

/// One account's redemption.
#[derive(Clone, Debug)]
pub struct AppFinancedUserExchangeData {
    pub account: AccountId,
    pub exchange_amount: Balance,
    pub status: ExchangeStatus,
    pub pay_id: Vec<u8>,
}

/// The sum of the amounts of the first `n` redemptions.
pub open spec fn sum_amounts(s: Seq<AppFinancedUserExchangeData>, n: int) -> int
    decreases n,
{
    if n <= 0 {
        0
    } else {
        sum_amounts(s, n - 1) + s[n - 1].exchange_amount
    }
}

/// The sum of all amounts.
pub open spec fn total_amount(s: Seq<AppFinancedUserExchangeData>) -> int {
    sum_amounts(s, s.len() as int)
}

/// No account redeems twice.
pub open spec fn unique_accounts(s: Seq<AppFinancedUserExchangeData>) -> bool {
    forall|i: int, j: int| 0 <= i < j < s.len() ==> s[i].account@ != s[j].account@
}

/// Whether an account has a redemption.
pub open spec fn has_record(s: Seq<AppFinancedUserExchangeData>, account: Seq<u8>) -> bool {
    exists|i: int| 0 <= i < s.len() && s[i].account@ == account
}

proof fn lemma_sum_push(s: Seq<AppFinancedUserExchangeData>, e: AppFinancedUserExchangeData)
    ensures
        total_amount(s.push(e)) == total_amount(s) + e.exchange_amount,
{
    assert(s.push(e).drop_last() =~= s);
    lemma_sum_prefix_eq(s.push(e), s, s.len() as int);
}

proof fn lemma_sum_prefix_eq(a: Seq<AppFinancedUserExchangeData>, b: Seq<AppFinancedUserExchangeData>, n: int)
    requires
        0 <= n <= a.len(),
        n <= b.len(),
        forall|k: int| 0 <= k < n ==> a[k].exchange_amount == b[k].exchange_amount,
    ensures
        sum_amounts(a, n) == sum_amounts(b, n),
    decreases n,
{
    if n > 0 {
        lemma_sum_prefix_eq(a, b, n - 1);
    }
}

proof fn lemma_unique_position(s: Seq<AppFinancedUserExchangeData>, i: int, account: Seq<u8>)
    requires
        unique_accounts(s),
        0 <= i < s.len(),
        s[i].account@ == account,
    ensures
        forall|j: int| 0 <= j < s.len() && s[j].account@ == account ==> j == i,
{
    assert forall|j: int| 0 <= j < s.len() && s[j].account@ == account implies j == i by {
        if j < i {
            assert(s[j].account@ != s[i].account@);
        } else if j > i {
            assert(s[i].account@ != s[j].account@);
        }
    }
}

/// Position of an account's redemption.
fn find_record(records: &Vec<AppFinancedUserExchangeData>, account: &AccountId) -> (r: Option<usize>)
    ensures
        match r {
            Some(i) => i < records@.len() && records@[i as int].account@ == account@,
            None => !has_record(records@, account@),
        },
{
    let mut i: usize = 0;
    while i < records.len()
        invariant
            0 <= i <= records@.len(),
            forall|j: int| 0 <= j < i ==> records@[j].account@ != account@,
        decreases records@.len() - i,
    {
        if bytes_eq(&records[i].account, account) {
            return Some(i);
        }
        i = i + 1;
    }
    None
}

/// The fee on a redemption: `fee_rate` per thousand of the amount.
pub open spec fn redeem_fee(fee_rate: u32, amount: Balance) -> int {
    per_mul(
        PERMILL_ONE as int,
        per_from_rational(PERMILL_ONE as int, fee_rate as int, 1000),
        amount as int,
    )
}

/// The fee on a redemption.
pub fn compute_redeem_fee(fee_rate: u32, amount: Balance) -> (r: Balance)
    ensures
        r == redeem_fee(fee_rate, amount),
{
    proof {
        lemma_from_rational_bounded(PERMILL_ONE as int, fee_rate as int, 1000);
    }
    let per = permill_from_rational(fee_rate as u64, 1000);
    permill_mul_balance(per, amount)
}

/// What a confirmed redemption moves: the reservation released, the fee
/// paid to the delegate, and the principal burned.
pub struct RedeemPayout {
    pub unreserve: Balance,
    pub fee: Balance,
    pub burn: Balance,
}

/// How an unconfirmed redemption closes: compensated when the delegate's
/// deposit covers the amount, failed otherwise.
pub open spec fn compensation_status(delegate_deposit: Balance, amount: Balance) -> ExchangeStatus {
    if delegate_deposit >= amount {
        ExchangeStatus::Compensated
    } else {
        ExchangeStatus::CompensationFailed
    }
}

/// `after` is `before` with the record at `i` moved to `status` (and, when
/// given, its pay reference set); every other record is as it was.
pub open spec fn updated_at(
    before: Seq<AppFinancedUserExchangeData>,
    after: Seq<AppFinancedUserExchangeData>,
    i: int,
    status: ExchangeStatus,
    pay_id: Option<Seq<u8>>,
) -> bool {
    &&& 0 <= i < before.len()
    &&& after.len() == before.len()
    &&& forall|j: int| 0 <= j < before.len() && j != i ==> after[j] == before[j]
    &&& after[i].account@ == before[i].account@
    &&& after[i].exchange_amount == before[i].exchange_amount
    &&& after[i].status == status
    &&& after[i].pay_id@ == match pay_id {
        Some(p) => p,
        None => before[i].pay_id@,
    }
}

proof fn lemma_updated_keeps(
    before: Seq<AppFinancedUserExchangeData>,
    after: Seq<AppFinancedUserExchangeData>,
    i: int,
    status: ExchangeStatus,
    pay_id: Option<Seq<u8>>,
)
    requires
        updated_at(before, after, i, status, pay_id),
        unique_accounts(before),
    ensures
        unique_accounts(after),
        total_amount(after) == total_amount(before),
{
    lemma_sum_prefix_eq(after, before, before.len() as int);
    assert forall|a: int, b: int| 0 <= a < b < after.len() implies after[a].account@ != after[b].account@ by {
        assert(after[a].account@ == before[a].account@);
        assert(after[b].account@ == before[b].account@);
    }
}

proof fn lemma_sum_nonneg(s: Seq<AppFinancedUserExchangeData>, n: int)
    ensures
        sum_amounts(s, n) >= 0,
    decreases n,
{
    if n > 0 {
        lemma_sum_nonneg(s, n - 1);
    }
}

// ---------------------------------------------------------------------------
// Per-cycle redemption of an app's income
// ---------------------------------------------------------------------------

/// The escrow ceiling of an app's cycle: the income at `rate` per ten
/// thousand, read as whole units, in balance units.
pub open spec fn escrow_ceiling(rate: u32, income: u64) -> int {
    let per = per_from_rational(PERMILL_ONE as int, rate as int, 10000);
    per_mul(PERMILL_ONE as int, per, income as int) * (UNIT as int)
}

/// The redemptions of one app in one cycle, against the cycle's escrow
/// ceiling (`initial`, of which `balance` is left).
pub struct AppIncomeCycleRecord {
    pub app_id: u32,
    pub cycle: BlockNumber,
    pub initial: Balance,
    pub balance: Balance,
    pub delegate: Option<AccountId>,
    pub records: Vec<AppFinancedUserExchangeData>,
}

/// The ceiling left before a redemption: a fresh ceiling on the cycle's
/// first redemption, else what is left.
pub open spec fn ceiling_left(rec: AppIncomeCycleRecord, return_rate: u32, income: u64) -> int {
    if rec.initial == 0 {
        escrow_ceiling(return_rate, income)
    } else {
        rec.balance as int
    }
}

/// Why a redemption request is rejected, in the order the guards apply.
pub open spec fn redeem_request_rejection(
    rec: AppIncomeCycleRecord,
    is_valid_app: bool,
    is_app_admin: bool,
    stage: ModelIncomeStage,
    account: Seq<u8>,
    exchange_amount: Balance,
    income: u64,
    return_rate: u32,
    fee_rate: u32,
    chosen_delegate: Option<AccountId>,
    free_balance: Balance,
) -> Option<Error> {
    let amount = exchange_amount + redeem_fee(fee_rate, exchange_amount);
    if !is_valid_app {
        Some(Error::AppIdInvalid)
    } else if !is_app_admin {
        Some(Error::NotAppAdmin)
    } else if stage != ModelIncomeStage::REWARDING {
        Some(Error::ModelIncomeNotInRewardingStage)
    } else if has_record(rec.records@, account) {
        Some(Error::AppFinancedUserExchangeAlreadyPerformed)
    } else if rec.delegate is None && chosen_delegate is None {
        Some(Error::NotFoundValidFinanceMember)
    } else if income == 0 {
        Some(Error::AppCycleIncomeZero)
    } else if rec.initial == 0 && return_rate == 0 {
        Some(Error::AppCycleIncomeRateZero)
    } else if amount > u128::MAX {
        Some(Error::AddOverflow)
    } else if !(ceiling_left(rec, return_rate, income) > amount) {
        Some(Error::AppFinancedUserExchangeOverflow)
    } else if free_balance < amount {
        Some(Error::BalanceNotEnough)
    } else {
        None
    }
}

impl AppIncomeCycleRecord {
    /// Well-formed: one redemption per account, and the ceiling is what is
    /// left plus what was redeemed.
    pub open spec fn wf(&self) -> bool {
        &&& unique_accounts(self.records@)
        &&& self.initial == self.balance + total_amount(self.records@)
        &&& self.records@.len() > 0 ==> self.delegate is Some
    }

    /// No redemption yet.
    pub fn new(app_id: u32, cycle: BlockNumber) -> (r: AppIncomeCycleRecord)
        ensures
            r.wf(),
            r.initial == 0,
            r.records@.len() == 0,
            r.delegate is None,
    {
        AppIncomeCycleRecord { app_id, cycle, initial: 0, balance: 0, delegate: None, records: Vec::new() }
    }

    /// Reserves a redemption of `exchange_amount` for `account`. In the
    /// rewarding stage only, once per account. The first redemption of the
    /// cycle sets the escrow ceiling from the app's income and return rate,
    /// and assigns the delegate chosen for it. The amount plus fee must
    /// stay strictly under the ceiling left, and the account must hold it;
    /// the ceiling goes down by the amount. Returns what is reserved.
    pub fn app_income_redeem_request(
        &mut self,
        is_valid_app: bool,
        is_app_admin: bool,
        stage: ModelIncomeStage,
        account: &AccountId,
        exchange_amount: Balance,
        income: u64,
        return_rate: u32,
        fee_rate: u32,
        chosen_delegate: &Option<AccountId>,
        free_balance: Balance,
    ) -> (r: Result<Balance, Error>)
        requires
            old(self).wf(),
        ensures
            final(self).wf(),
            r is Err ==> *final(self) == *old(self),
            ({
                let e = redeem_request_rejection(*old(self), is_valid_app, is_app_admin, stage, account@,
                    exchange_amount, income, return_rate, fee_rate, *chosen_delegate, free_balance);
                &&& (r is Err <==> e is Some)
                &&& e is Some ==> r == Err::<Balance, Error>(e.unwrap())
                &&& r is Ok ==> r.unwrap() == exchange_amount + redeem_fee(fee_rate, exchange_amount)
            }),
            r is Ok ==> {
                let ceiling = if old(self).initial == 0 { escrow_ceiling(return_rate, income) } else { old(self).initial as int };
                let left = if old(self).initial == 0 { ceiling } else { old(self).balance as int };
                &&& final(self).initial == ceiling
                &&& final(self).balance == left - exchange_amount
                &&& r.unwrap() < left
                &&& final(self).records@.len() == old(self).records@.len() + 1
                &&& final(self).records@.drop_last() == old(self).records@
                &&& final(self).records@.last().account@ == account@
                &&& final(self).records@.last().exchange_amount == exchange_amount
                &&& final(self).records@.last().status == ExchangeStatus::Initiated
                &&& final(self).records@.last().pay_id@.len() == 0
                &&& final(self).delegate is Some
                &&& (old(self).delegate is None ==> final(self).delegate.unwrap()@ == chosen_delegate.unwrap()@)
                &&& (old(self).delegate is Some ==> final(self).delegate.unwrap()@ == old(self).delegate.unwrap()@)
            },
    {
        if !is_valid_app {
            return Err(Error::AppIdInvalid);
        }
        if !is_app_admin {
            return Err(Error::NotAppAdmin);
        }
        if stage != ModelIncomeStage::REWARDING {
            return Err(Error::ModelIncomeNotInRewardingStage);
        }
        if find_record(&self.records, account).is_some() {
            return Err(Error::AppFinancedUserExchangeAlreadyPerformed);
        }
        let delegate = match &self.delegate {
            Some(d) => d.clone(),
            None => match chosen_delegate {
                Some(d) => d.clone(),
                None => {
                    return Err(Error::NotFoundValidFinanceMember);
                },
            },
        };
        if income == 0 {
            return Err(Error::AppCycleIncomeZero);
        }
        let mut initial = self.initial;
        let mut balance = self.balance;
        if initial == 0 {
            if return_rate == 0 {
                return Err(Error::AppCycleIncomeRateZero);
            }
            proof {
                lemma_from_rational_bounded(PERMILL_ONE as int, return_rate as int, 10000);
            }
            let per = permill_from_rational(return_rate as u64, 10000);
            let cent: u64 = permill_mul(per, income);
            proof {
                crate::arith::lemma_per_mul_bounded(PERMILL_ONE as int, per as int, income as int);
                assert(cent * UNIT <= u64::MAX * UNIT) by (nonlinear_arith)
                    requires
                        cent <= u64::MAX,
                ;
            }
            initial = (cent as u128) * UNIT;
            balance = initial;
        }
        let fee = compute_redeem_fee(fee_rate, exchange_amount);
        let amount = match exchange_amount.checked_add(fee) {
            Some(a) => a,
            None => {
                return Err(Error::AddOverflow);
            },
        };
        if !(balance > amount) {
            return Err(Error::AppFinancedUserExchangeOverflow);
        }
        if free_balance < amount {
            return Err(Error::BalanceNotEnough);
        }
        let ghost old_records = self.records@;
        proof {
            lemma_sum_nonneg(old_records, old_records.len() as int);
        }
        self.initial = initial;
        self.balance = balance - exchange_amount;
        self.delegate = Some(delegate);
        let rec = AppFinancedUserExchangeData {
            account: account.clone(),
            exchange_amount,
            status: ExchangeStatus::Initiated,
            pay_id: Vec::new(),
        };
        self.records.push(rec);
        proof {
            lemma_sum_push(old_records, rec);
            assert(self.records@.drop_last() =~= old_records);
            assert forall|i: int, j: int| 0 <= i < j < self.records@.len() implies self.records@[i].account@
                != self.records@[j].account@ by {
                if j == self.records@.len() - 1 {
                    assert(self.records@[i] == old_records[i]);
                } else {
                    assert(self.records@[i] == old_records[i]);
                    assert(self.records@[j] == old_records[j]);
                }
            }
        }
        Ok(amount)
    }

    /// Confirms a redemption: only the cycle's delegate may, while the
    /// record is still initiated, in the rewarding or confirming stage. The
    /// reservation is released, the fee goes to the delegate and the
    /// principal is burned.
    pub fn app_income_redeem_confirm(
        &mut self,
        is_valid_app: bool,
        caller: &AccountId,
        account: &AccountId,
        pay_id: &Vec<u8>,
        stage: ModelIncomeStage,
        fee_rate: u32,
    ) -> (r: Result<RedeemPayout, Error>)
        requires
            old(self).wf(),
        ensures
            final(self).wf(),
            r is Err ==> *final(self) == *old(self),
            !is_valid_app ==> r == Err::<RedeemPayout, Error>(Error::AppIdInvalid),
            is_valid_app && !(old(self).delegate is Some && old(self).delegate.unwrap()@ == caller@) ==> r
                == Err::<RedeemPayout, Error>(Error::AuthIdentityNotExpectedFinanceMember),
            is_valid_app && old(self).delegate is Some && old(self).delegate.unwrap()@ == caller@ ==> (r is Ok
                <==> (exists|i: int|
                0 <= i < old(self).records@.len() && old(self).records@[i].account@ == account@
                    && old(self).records@[i].status == ExchangeStatus::Initiated
                    && old(self).records@[i].exchange_amount + redeem_fee(fee_rate, old(self).records@[i].exchange_amount)
                    <= u128::MAX) && (stage == ModelIncomeStage::CONFIRMING || stage == ModelIncomeStage::REWARDING)),
            r is Ok ==> exists|i: int|
                {
                    &&& 0 <= i < old(self).records@.len()
                    &&& old(self).records@[i].account@ == account@
                    &&& old(self).records@[i].status == ExchangeStatus::Initiated
                    &&& (stage == ModelIncomeStage::CONFIRMING || stage == ModelIncomeStage::REWARDING)
                    &&& updated_at(old(self).records@, final(self).records@, i, ExchangeStatus::Confirmed, Some(pay_id@))
                    &&& r.unwrap().burn == old(self).records@[i].exchange_amount
                    &&& r.unwrap().fee == redeem_fee(fee_rate, old(self).records@[i].exchange_amount)
                    &&& r.unwrap().unreserve == r.unwrap().burn + r.unwrap().fee
                },
            r is Ok ==> final(self).initial == old(self).initial && final(self).balance == old(self).balance,
    {
        if !is_valid_app {
            return Err(Error::AppIdInvalid);
        }
        let is_delegate = match &self.delegate {
            Some(d) => bytes_eq(d, caller),
            None => false,
        };
        if !is_delegate {
            return Err(Error::AuthIdentityNotExpectedFinanceMember);
        }
        let i = match find_record(&self.records, account) {
            Some(i) => i,
            None => {
                return Err(Error::AppFinancedUserExchangeRecordNotExist);
            },
        };
        proof {
            lemma_unique_position(self.records@, i as int, account@);
        }
        if self.records[i].status != ExchangeStatus::Initiated {
            return Err(Error::AppFinancedUserExchangeStateWrong);
        }
        if !(stage == ModelIncomeStage::CONFIRMING || stage == ModelIncomeStage::REWARDING) {
            return Err(Error::ModelIncomeNotInConfirmingStage);
        }
        let amount = self.records[i].exchange_amount;
        let fee = compute_redeem_fee(fee_rate, amount);
        let unreserve = match amount.checked_add(fee) {
            Some(u) => u,
            None => {
                return Err(Error::AddOverflow);
            },
        };
        let ghost old_records = self.records@;
        let rec = AppFinancedUserExchangeData {
            account: self.records[i].account.clone(),
            exchange_amount: amount,
            status: ExchangeStatus::Confirmed,
            pay_id: pay_id.clone(),
        };
        self.records.set(i, rec);
        proof {
            assert(updated_at(old_records, self.records@, i as int, ExchangeStatus::Confirmed, Some(pay_id@)));
            lemma_updated_keeps(old_records, self.records@, i as int, ExchangeStatus::Confirmed, Some(pay_id@));
        }
        Ok(RedeemPayout { unreserve, fee, burn: amount })
    }

    /// The delegate and amount of a redemption that may be compensated now:
    /// still initiated, in the compensating stage.
    pub fn compensation_due(&self, account: &AccountId, stage: ModelIncomeStage) -> (r: Result<(AccountId, Balance), Error>)
        requires
            self.wf(),
        ensures
            r is Ok <==> (has_record(self.records@, account@) && stage == ModelIncomeStage::COMPENSATING
                && exists|i: int| 0 <= i < self.records@.len() && self.records@[i].account@ == account@
                && self.records@[i].status == ExchangeStatus::Initiated),
            r is Ok ==> exists|i: int|
                0 <= i < self.records@.len() && self.records@[i].account@ == account@ && r.unwrap().1
                    == self.records@[i].exchange_amount && r.unwrap().0@ == self.delegate.unwrap()@,
    {
        let i = match find_record(&self.records, account) {
            Some(i) => i,
            None => {
                return Err(Error::AppFinancedUserExchangeRecordNotExist);
            },
        };
        proof {
            assert forall|j: int| 0 <= j < self.records@.len() && self.records@[j].account@ == account@ implies j == i by {
                if j != i {
                    if j < i {
                        assert(self.records@[j].account@ != self.records@[i as int].account@);
                    } else {
                        assert(self.records@[i as int].account@ != self.records@[j].account@);
                    }
                }
            }
        }
        if self.records[i].status != ExchangeStatus::Initiated {
            return Err(Error::AppFinancedUserExchangeStateWrong);
        }
        if stage != ModelIncomeStage::COMPENSATING {
            return Err(Error::ModelIncomeNotInCompensatingStage);
        }
        let d = match &self.delegate {
            Some(d) => d.clone(),
            None => vstd::pervasive::unreached(),
        };
        Ok((d, self.records[i].exchange_amount))
    }

    /// Compensates an unconfirmed redemption: the whole reservation (amount
    /// plus fee) is released, and the record closes as compensated when the
    /// delegate's deposit covers the amount, as failed otherwise.
    pub fn app_income_redeem_compensate(
        &mut self,
        account: &AccountId,
        stage: ModelIncomeStage,
        fee_rate: u32,
        delegate_deposit: Balance,
    ) -> (r: Result<Balance, Error>)
        requires
            old(self).wf(),
        ensures
            final(self).wf(),
            r is Err ==> *final(self) == *old(self),
            r is Ok <==> (stage == ModelIncomeStage::COMPENSATING && exists|i: int|
                0 <= i < old(self).records@.len() && old(self).records@[i].account@ == account@
                    && old(self).records@[i].status == ExchangeStatus::Initiated
                    && old(self).records@[i].exchange_amount + redeem_fee(fee_rate, old(self).records@[i].exchange_amount)
                    <= u128::MAX),
            r is Ok ==> exists|i: int|
                {
                    &&& 0 <= i < old(self).records@.len()
                    &&& old(self).records@[i].account@ == account@
                    &&& r.unwrap() == old(self).records@[i].exchange_amount + redeem_fee(
                        fee_rate,
                        old(self).records@[i].exchange_amount,
                    )
                    &&& updated_at(
                        old(self).records@,
                        final(self).records@,
                        i,
                        compensation_status(delegate_deposit, old(self).records@[i].exchange_amount),
                        None,
                    )
                },
            final(self).initial == old(self).initial,
            final(self).balance == old(self).balance,
    {
        match self.compensation_due(account, stage) {
            Ok(_) => {},
            Err(e) => {
                return Err(e);
            },
        }
        let i = match find_record(&self.records, account) {
            Some(i) => i,
            None => vstd::pervasive::unreached(),
        };
        let amount = self.records[i].exchange_amount;
        let fee = compute_redeem_fee(fee_rate, amount);
        let release = match amount.checked_add(fee) {
            Some(v) => v,
            None => {
                return Err(Error::AddOverflow);
            },
        };
        let status = if delegate_deposit >= amount {
            ExchangeStatus::Compensated
        } else {
            ExchangeStatus::CompensationFailed
        };
        let ghost old_records = self.records@;
        let rec = AppFinancedUserExchangeData {
            account: self.records[i].account.clone(),
            exchange_amount: amount,
            status,
            pay_id: self.records[i].pay_id.clone(),
        };
        self.records.set(i, rec);
        proof {
            assert(updated_at(old_records, self.records@, i as int, status, None));
            lemma_updated_keeps(old_records, self.records@, i as int, status, None);
        }
        Ok(release)
    }
}

/// Redemption conservation: what the accounts of a cycle redeemed never
/// exceeds the cycle's escrow ceiling, which is always what is left plus
/// what was redeemed.
pub proof fn lemma_redemptions_within_ceiling(rec: AppIncomeCycleRecord)
    requires
        rec.wf(),
    ensures
        total_amount(rec.records@) <= rec.initial,
        rec.initial == rec.balance + total_amount(rec.records@),
{
}

// ---------------------------------------------------------------------------
// One-off financing proposals
// ---------------------------------------------------------------------------

/// A financing proposal: `amount` paid to the investor, against an
/// exchange quota that users may redeem until `exchange_end_block`.
#[derive(Clone, Debug)]
pub struct AppFinancedData {
    pub app_id: u32,
    pub proposal_id: Vec<u8>,
    pub amount: Balance,
    pub exchange: Balance,
    pub block: BlockNumber,
    pub total_balance: Balance,
    pub exchanged: Balance,
    pub exchange_end_block: BlockNumber,
}

/// A proposal with its delegate and its users' exchanges.
pub struct FinanceProposal {
    pub data: AppFinancedData,
    pub delegate: Option<AccountId>,
    pub records: Vec<AppFinancedUserExchangeData>,
}

/// Why a new financing proposal is rejected, in the order the guards apply.
pub open spec fn financed_rejection(
    last_end: Option<BlockNumber>,
    now: BlockNumber,
    is_finance_member: bool,
    is_valid_app: bool,
    amount: Balance,
    exchange: Balance,
    min_rate: u32,
    already_financed: bool,
    is_investor: bool,
    period: BlockNumber,
) -> Option<Error> {
    if last_end is Some && !(last_end.unwrap() < now) {
        Some(Error::AppFinancedLastExchangeNotEnd)
    } else if !is_finance_member {
        Some(Error::AuthIdentityNotFinanceMember)
    } else if !is_valid_app {
        Some(Error::AppIdInvalid)
    } else if !(amount > 0 && exchange > 0) {
        Some(Error::AppFinancedParamsInvalid)
    } else if exchange < per_mul(PERMILL_ONE as int, min_rate as int, amount as int) {
        Some(Error::AppFinancedExchangeRateTooLow)
    } else if already_financed {
        Some(Error::AppAlreadyFinanced)
    } else if !is_investor {
        Some(Error::AppFinancedNotInvestor)
    } else if now + period > u32::MAX {
        Some(Error::AddOverflow)
    } else {
        None
    }
}

/// Opens a financing proposal. Only one may be open: a new one waits until
/// the last one's exchange window has fully passed. The exchange must be
/// at least the minimal rate (in parts per million) of the amount.
pub fn democracy_app_financed(
    last_end: Option<BlockNumber>,
    now: BlockNumber,
    is_finance_member: bool,
    is_valid_app: bool,
    is_investor: bool,
    already_financed: bool,
    min_rate: u32,
    app_id: u32,
    proposal_id: &Vec<u8>,
    exchange: Balance,
    amount: Balance,
    total_balance: Balance,
    period: BlockNumber,
) -> (r: Result<FinanceProposal, Error>)
    requires
        min_rate <= PERMILL_ONE,
    ensures
        ({
            let e = financed_rejection(last_end, now, is_finance_member, is_valid_app, amount, exchange,
                min_rate, already_financed, is_investor, period);
            &&& (r is Err <==> e is Some)
            &&& e is Some ==> r == Err::<FinanceProposal, Error>(e.unwrap())
        }),
        r is Ok ==> {
            let p = r.unwrap();
            &&& p.wf()
            &&& p.data.app_id == app_id
            &&& p.data.proposal_id@ == proposal_id@
            &&& p.data.amount == amount
            &&& p.data.exchange == exchange
            &&& p.data.block == now
            &&& p.data.total_balance == total_balance
            &&& p.data.exchanged == 0
            &&& p.data.exchange_end_block == now + period
            &&& p.delegate is None
            &&& p.records@.len() == 0
        },
{
    match last_end {
        Some(end) => {
            if !(end < now) {
                return Err(Error::AppFinancedLastExchangeNotEnd);
            }
        },
        None => {},
    }
    if !is_finance_member {
        return Err(Error::AuthIdentityNotFinanceMember);
    }
    if !is_valid_app {
        return Err(Error::AppIdInvalid);
    }
    if !(amount > 0 && exchange > 0) {
        return Err(Error::AppFinancedParamsInvalid);
    }
    let min_exchange = permill_mul_balance(min_rate, amount);
    if exchange < min_exchange {
        return Err(Error::AppFinancedExchangeRateTooLow);
    }
    if already_financed {
        return Err(Error::AppAlreadyFinanced);
    }
    if !is_investor {
        return Err(Error::AppFinancedNotInvestor);
    }
    let end = match now.checked_add(period) {
        Some(e) => e,
        None => {
            return Err(Error::AddOverflow);
        },
    };
    let p = FinanceProposal {
        data: AppFinancedData {
            app_id,
            proposal_id: proposal_id.clone(),
            amount,
            exchange,
            block: now,
            total_balance,
            exchanged: 0,
            exchange_end_block: end,
        },
        delegate: None,
        records: Vec::new(),
    };
    proof {
        assert(total_amount(p.records@) == 0);
    }
    Ok(p)
}

/// Why a user exchange request is rejected, in the order the guards apply.
pub open spec fn exchange_request_rejection(
    p: FinanceProposal,
    is_valid_app: bool,
    is_app_admin: bool,
    account: Seq<u8>,
    exchange_amount: Balance,
    now: BlockNumber,
    fee_rate: u32,
    chosen_delegate: Option<AccountId>,
    free_balance: Balance,
) -> Option<Error> {
    let amount = exchange_amount + redeem_fee(fee_rate, exchange_amount);
    if !is_valid_app {
        Some(Error::AppIdInvalid)
    } else if !is_app_admin {
        Some(Error::NotAppAdmin)
    } else if has_record(p.records@, account) {
        Some(Error::AppFinancedUserExchangeAlreadyPerformed)
    } else if !(p.data.exchange_end_block > now) {
        Some(Error::AppFinancedUserExchangeEnded)
    } else if p.data.exchanged + exchange_amount > p.data.exchange {
        Some(Error::AppFinancedUserExchangeOverflow)
    } else if p.delegate is None && chosen_delegate is None {
        Some(Error::NotFoundValidFinanceMember)
    } else if amount > u128::MAX {
        Some(Error::AddOverflow)
    } else if free_balance < amount {
        Some(Error::BalanceNotEnough)
    } else {
        None
    }
}

impl FinanceProposal {
    /// Well-formed: one exchange per account, and the quota used is the sum
    /// of the exchanges and never above the quota.
    pub open spec fn wf(&self) -> bool {
        &&& unique_accounts(self.records@)
        &&& self.data.exchanged == total_amount(self.records@)
        &&& self.data.exchanged <= self.data.exchange
        &&& self.records@.len() > 0 ==> self.delegate is Some
    }

    /// Reserves a user's exchange against the proposal's quota, while its
    /// exchange window is open, once per account. Returns what is reserved.
    pub fn app_financed_user_exchange_request(
        &mut self,
        is_valid_app: bool,
        is_app_admin: bool,
        account: &AccountId,
        exchange_amount: Balance,
        now: BlockNumber,
        fee_rate: u32,
        chosen_delegate: &Option<AccountId>,
        free_balance: Balance,
    ) -> (r: Result<Balance, Error>)
        requires
            old(self).wf(),
        ensures
            final(self).wf(),
            r is Err ==> *final(self) == *old(self),
            ({
                let e = exchange_request_rejection(*old(self), is_valid_app, is_app_admin, account@,
                    exchange_amount, now, fee_rate, *chosen_delegate, free_balance);
                &&& (r is Err <==> e is Some)
                &&& e is Some ==> r == Err::<Balance, Error>(e.unwrap())
                &&& r is Ok ==> r.unwrap() == exchange_amount + redeem_fee(fee_rate, exchange_amount)
            }),
            r is Ok ==> {
                &&& final(self).data.exchanged == old(self).data.exchanged + exchange_amount
                &&& final(self).records@.drop_last() == old(self).records@
                &&& final(self).records@.len() == old(self).records@.len() + 1
                &&& final(self).records@.last().account@ == account@
                &&& final(self).records@.last().exchange_amount == exchange_amount
                &&& final(self).records@.last().status == ExchangeStatus::Initiated
                &&& final(self).records@.last().pay_id@.len() == 0
                &&& final(self).delegate is Some
                &&& (old(self).delegate is None ==> final(self).delegate.unwrap()@ == chosen_delegate.unwrap()@)
                &&& (old(self).delegate is Some ==> final(self).delegate.unwrap()@ == old(self).delegate.unwrap()@)
                &&& final(self).data.exchange == old(self).data.exchange
                &&& final(self).data.exchange_end_block == old(self).data.exchange_end_block
            },
    {
        if !is_valid_app {
            return Err(Error::AppIdInvalid);
        }
        if !is_app_admin {
            return Err(Error::NotAppAdmin);
        }
        if find_record(&self.records, account).is_some() {
            return Err(Error::AppFinancedUserExchangeAlreadyPerformed);
        }
        if !(self.data.exchange_end_block > now) {
            return Err(Error::AppFinancedUserExchangeEnded);
        }
        let used = match self.data.exchanged.checked_add(exchange_amount) {
            Some(u) => u,
            None => {
                return Err(Error::AppFinancedUserExchangeOverflow);
            },
        };
        if used > self.data.exchange {
            return Err(Error::AppFinancedUserExchangeOverflow);
        }
        let delegate = match &self.delegate {
            Some(d) => d.clone(),
            None => match chosen_delegate {
                Some(d) => d.clone(),
                None => {
                    return Err(Error::NotFoundValidFinanceMember);
                },
            },
        };
        let fee = compute_redeem_fee(fee_rate, exchange_amount);
        let amount = match exchange_amount.checked_add(fee) {
            Some(a) => a,
            None => {
                return Err(Error::AddOverflow);
            },
        };
        if free_balance < amount {
            return Err(Error::BalanceNotEnough);
        }
        let ghost old_records = self.records@;
        self.data.exchanged = used;
        self.delegate = Some(delegate);
        let rec = AppFinancedUserExchangeData {
            account: account.clone(),
            exchange_amount,
            status: ExchangeStatus::Initiated,
            pay_id: Vec::new(),
        };
        self.records.push(rec);
        proof {
            lemma_sum_push(old_records, rec);
            assert(self.records@.drop_last() =~= old_records);
            assert forall|i: int, j: int| 0 <= i < j < self.records@.len() implies self.records@[i].account@
                != self.records@[j].account@ by {
                assert(self.records@[i] == old_records[i]);
                if j < self.records@.len() - 1 {
                    assert(self.records@[j] == old_records[j]);
                }
            }
        }
        Ok(amount)
    }

    /// Confirms a user's exchange: only the proposal's delegate may, while
    /// the record is initiated, until half a period after the exchange
    /// window ends.
    pub fn app_financed_user_exchange_confirm(
        &mut self,
        is_valid_app: bool,
        caller: &AccountId,
        account: &AccountId,
        pay_id: &Vec<u8>,
        now: BlockNumber,
        period: BlockNumber,
        fee_rate: u32,
    ) -> (r: Result<RedeemPayout, Error>)
        requires
            old(self).wf(),
        ensures
            final(self).wf(),
            r is Err ==> *final(self) == *old(self),
            !(old(self).delegate is Some && old(self).delegate.unwrap()@ == caller@) ==> r == Err::<
                RedeemPayout,
                Error,
            >(Error::AuthIdentityNotExpectedFinanceMember),
            old(self).delegate is Some && old(self).delegate.unwrap()@ == caller@ ==> (r is Ok <==> (is_valid_app
                && (exists|i: int|
                0 <= i < old(self).records@.len() && old(self).records@[i].account@ == account@
                    && old(self).records@[i].status == ExchangeStatus::Initiated
                    && old(self).records@[i].exchange_amount + redeem_fee(fee_rate, old(self).records@[i].exchange_amount)
                    <= u128::MAX) && now <= old(self).data.exchange_end_block + period / 2)),
            r is Ok ==> exists|i: int|
                {
                    &&& 0 <= i < old(self).records@.len()
                    &&& old(self).records@[i].account@ == account@
                    &&& old(self).records@[i].status == ExchangeStatus::Initiated
                    &&& now <= old(self).data.exchange_end_block + period / 2
                    &&& updated_at(old(self).records@, final(self).records@, i, ExchangeStatus::Confirmed, Some(pay_id@))
                    &&& r.unwrap().burn == old(self).records@[i].exchange_amount
                    &&& r.unwrap().fee == redeem_fee(fee_rate, old(self).records@[i].exchange_amount)
                    &&& r.unwrap().unreserve == r.unwrap().burn + r.unwrap().fee
                },
            final(self).data.exchanged == old(self).data.exchanged,
    {
        let is_delegate = match &self.delegate {
            Some(d) => bytes_eq(d, caller),
            None => false,
        };
        if !is_delegate {
            return Err(Error::AuthIdentityNotExpectedFinanceMember);
        }
        if !is_valid_app {
            return Err(Error::AppIdInvalid);
        }
        let i = match find_record(&self.records, account) {
            Some(i) => i,
            None => {
                return Err(Error::AppFinancedUserExchangeRecordNotExist);
            },
        };
        proof {
            lemma_unique_position(self.records@, i as int, account@);
        }
        if self.records[i].status != ExchangeStatus::Initiated {
            return Err(Error::AppFinancedUserExchangeStateWrong);
        }
        let end: u64 = self.data.exchange_end_block as u64 + (period / 2) as u64;
        if !(end >= now as u64) {
            return Err(Error::AppFinancedUserExchangeConfirmEnded);
        }
        let amount = self.records[i].exchange_amount;
        let fee = compute_redeem_fee(fee_rate, amount);
        let unreserve = match amount.checked_add(fee) {
            Some(u) => u,
            None => {
                return Err(Error::AddOverflow);
            },
        };
        let ghost old_records = self.records@;
        let rec = AppFinancedUserExchangeData {
            account: self.records[i].account.clone(),
            exchange_amount: amount,
            status: ExchangeStatus::Confirmed,
            pay_id: pay_id.clone(),
        };
        self.records.set(i, rec);
        proof {
            assert(updated_at(old_records, self.records@, i as int, ExchangeStatus::Confirmed, Some(pay_id@)));
            lemma_updated_keeps(old_records, self.records@, i as int, ExchangeStatus::Confirmed, Some(pay_id@));
        }
        Ok(RedeemPayout { unreserve, fee, burn: amount })
    }

    /// The delegate and amount of an exchange that may be compensated now:
    /// still initiated, after the confirmation window and within a period
    /// after the exchange window ended.
    pub fn compensation_due(&self, account: &AccountId, now: BlockNumber, period: BlockNumber) -> (r: Result<(AccountId, Balance), Error>)
        requires
            self.wf(),
        ensures
            r is Ok <==> (exists|i: int|
                0 <= i < self.records@.len() && self.records@[i].account@ == account@
                    && self.records@[i].status == ExchangeStatus::Initiated)
                && self.data.exchange_end_block + period / 2 < now
                && now <= self.data.exchange_end_block + period,
            r is Ok ==> exists|i: int|
                0 <= i < self.records@.len() && self.records@[i].account@ == account@ && r.unwrap().1
                    == self.records@[i].exchange_amount && r.unwrap().0@ == self.delegate.unwrap()@,
    {
        let i = match find_record(&self.records, account) {
            Some(i) => i,
            None => {
                return Err(Error::AppFinancedUserExchangeRecordNotExist);
            },
        };
        proof {
            assert forall|j: int| 0 <= j < self.records@.len() && self.records@[j].account@ == account@ implies j == i by {
                if j != i {
                    if j < i {
                        assert(self.records@[j].account@ != self.records@[i as int].account@);
                    } else {
                        assert(self.records@[i as int].account@ != self.records@[j].account@);
                    }
                }
            }
        }
        if self.records[i].status != ExchangeStatus::Initiated {
            return Err(Error::AppFinancedUserExchangeStateWrong);
        }
        let confirm_end: u64 = self.data.exchange_end_block as u64 + (period / 2) as u64;
        if !(confirm_end < now as u64) {
            return Err(Error::AppFinancedUserExchangeConfirmNotEnd);
        }
        let end: u64 = self.data.exchange_end_block as u64 + period as u64;
        if !(end >= now as u64) {
            return Err(Error::AppFinancedUserExchangeCompensateEnded);
        }
        let d = match &self.delegate {
            Some(d) => d.clone(),
            None => vstd::pervasive::unreached(),
        };
        Ok((d, self.records[i].exchange_amount))
    }

    /// Compensates an unconfirmed exchange: the whole reservation (amount
    /// plus fee) is released, and the record closes as compensated when the
    /// delegate's deposit covers the amount, as failed otherwise.
    pub fn app_finance_redeem_compensate(
        &mut self,
        account: &AccountId,
        now: BlockNumber,
        period: BlockNumber,
        fee_rate: u32,
        delegate_deposit: Balance,
    ) -> (r: Result<Balance, Error>)
        requires
            old(self).wf(),
        ensures
            final(self).wf(),
            r is Err ==> *final(self) == *old(self),
            r is Ok <==> (exists|i: int|
                0 <= i < old(self).records@.len() && old(self).records@[i].account@ == account@
                    && old(self).records@[i].status == ExchangeStatus::Initiated
                    && old(self).records@[i].exchange_amount + redeem_fee(fee_rate, old(self).records@[i].exchange_amount)
                    <= u128::MAX)
                && old(self).data.exchange_end_block + period / 2 < now
                && now <= old(self).data.exchange_end_block + period,
            r is Ok ==> exists|i: int|
                {
                    &&& 0 <= i < old(self).records@.len()
                    &&& old(self).records@[i].account@ == account@
                    &&& r.unwrap() == old(self).records@[i].exchange_amount + redeem_fee(
                        fee_rate,
                        old(self).records@[i].exchange_amount,
                    )
                    &&& updated_at(
                        old(self).records@,
                        final(self).records@,
                        i,
                        compensation_status(delegate_deposit, old(self).records@[i].exchange_amount),
                        None,
                    )
                },
            final(self).data.exchanged == old(self).data.exchanged,
    {
        match self.compensation_due(account, now, period) {
            Ok(_) => {},
            Err(e) => {
                return Err(e);
            },
        }
        let i = match find_record(&self.records, account) {
            Some(i) => i,
            None => vstd::pervasive::unreached(),
        };
        let amount = self.records[i].exchange_amount;
        let fee = compute_redeem_fee(fee_rate, amount);
        let release = match amount.checked_add(fee) {
            Some(v) => v,
            None => {
                return Err(Error::AddOverflow);
            },
        };
        let status = if delegate_deposit >= amount {
            ExchangeStatus::Compensated
        } else {
            ExchangeStatus::CompensationFailed
        };
        let ghost old_records = self.records@;
        let rec = AppFinancedUserExchangeData {
            account: self.records[i].account.clone(),
            exchange_amount: amount,
            status,
            pay_id: self.records[i].pay_id.clone(),
        };
        self.records.set(i, rec);
        proof {
            assert(updated_at(old_records, self.records@, i as int, status, None));
            lemma_updated_keeps(old_records, self.records@, i as int, status, None);
        }
        Ok(release)
    }
}

/// A financing proposal's quota is never exceeded: the exchanges reserved
/// against it add up to the quota used, which stays within the quota.
pub proof fn lemma_exchanges_within_quota(p: FinanceProposal)
    requires
        p.wf(),
    ensures
        total_amount(p.records@) <= p.data.exchange,
{
}

} // verus!
