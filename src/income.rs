//! Model income collection and rewards per cycle, and the choice of a
//! finance delegate among the members holding the largest deposit.

use vstd::prelude::*;
use crate::arith::{per_from_rational, per_mul, permill_from_rational, permill_mul_balance, lemma_from_rational_bounded, PERMILL_ONE};
use crate::error::Error;
use crate::exchange::Balance;
use crate::lottery::{chacha_words, draw_words};
use crate::power::AccountId;
use crate::stage::{BlockNumber, ModelIncomeStage};
use crate::model::ModelRegistry;
use crate::table::Table;

verus! {

/// The model incomes of one cycle.
pub struct ModelCycleIncome {
    pub cycle: BlockNumber,
    /// Sum of all model incomes of the cycle.
    pub total: u64,
    /// Income of each `(app, model)`.
    pub model_income: Table<u64>,
    /// Income of each app, under `(app, empty id)`.
    pub app_income: Table<u64>,
    /// Reward paid to each `(app, model)`.
    pub rewards: Table<Balance>,
}

/// An app's income in a table of app incomes.
pub open spec fn app_total(m: Map<(u32, Seq<u8>), u64>, app_id: u32) -> int {
    if m.contains_key((app_id, Seq::empty())) {
        m[(app_id, Seq::empty())] as int
    } else {
        0
    }
}

/// Which models of a batch take part: those that exist, are enabled, and
/// whose reward was not cancelled in the previous cycle.
pub open spec fn eligibility(models: ModelRegistry, app_id: u32, ids: Seq<Seq<u8>>, cycle: u32) -> Seq<bool> {
    Seq::new(
        ids.len(),
        |i: int| models.valid_model(app_id, ids[i]) && !models.slashed_before(app_id, ids[i], cycle),
    )
}

/// Incomes, cycle total and app total after the first `n` entries of a
/// batch: an entry counts when its model is eligible and has no income
/// yet this cycle. `None` when the cycle total would overflow.
pub open spec fn batch_effect(
    models: Map<(u32, Seq<u8>), u64>,
    total: int,
    app: int,
    app_id: u32,
    ids: Seq<Seq<u8>>,
    incomes: Seq<u64>,
    eligible: Seq<bool>,
    n: int,
) -> Option<(Map<(u32, Seq<u8>), u64>, int, int)>
    decreases n,
{
    if n <= 0 {
        Some((models, total, app))
    } else {
        match batch_effect(models, total, app, app_id, ids, incomes, eligible, n - 1) {
            None => None,
            Some((m, t, a)) => {
                let k = (app_id, ids[n - 1]);
                if !eligible[n - 1] || m.contains_key(k) {
                    Some((m, t, a))
                } else if t + incomes[n - 1] > u64::MAX {
                    None
                } else {
                    Some((m.insert(k, incomes[n - 1]), t + incomes[n - 1], a + incomes[n - 1]))
                }
            },
        }
    }
}

impl ModelCycleIncome {
    /// No income yet.
    pub fn new(cycle: BlockNumber) -> (r: ModelCycleIncome)
        ensures
            r.cycle == cycle,
            r.total == 0,
            r.model_income@ == Map::<(u32, Seq<u8>), u64>::empty(),
            r.app_income@ == Map::<(u32, Seq<u8>), u64>::empty(),
            r.rewards@ == Map::<(u32, Seq<u8>), Balance>::empty(),
    {
        ModelCycleIncome {
            cycle,
            total: 0,
            model_income: Table::new(),
            app_income: Table::new(),
            rewards: Table::new(),
        }
    }

    /// An app's income this cycle.
    pub fn app_cycle_income(&self, app_id: u32) -> (r: u64)
        ensures
            r == app_total(self.app_income@, app_id),
    {
        let empty: Vec<u8> = Vec::new();
        match self.app_income.get(app_id, &empty) {
            Some(v) => v,
            None => 0,
        }
    }

    /// Records a batch of model incomes of one app given which models are
    /// eligible, in the collecting stage only, at most a hundred at once. A model that is not eligible (not
    /// enabled, or slashed in the previous cycle) or already has an income
    /// this cycle is passed over. Nothing is recorded when the cycle total
    /// would overflow.
    fn record_model_incomes(
        &mut self,
        is_finance_member: bool,
        is_app_admin: bool,
        stage: ModelIncomeStage,
        app_id: u32,
        model_ids: &Vec<Vec<u8>>,
        incomes: &Vec<u64>,
        eligible: &Vec<bool>,
    ) -> (r: Result<(), Error>)
        requires
            model_ids@.len() == incomes@.len(),
            eligible@.len() == incomes@.len(),
            app_total(old(self).app_income@, app_id) <= old(self).total,
        ensures
            r is Err ==> final(self).total == old(self).total && final(self).model_income@
                == old(self).model_income@ && final(self).app_income@ == old(self).app_income@,
            final(self).rewards@ == old(self).rewards@,
            !is_finance_member ==> r == Err::<(), Error>(Error::AuthIdentityNotFinanceMember),
            is_finance_member && !is_app_admin ==> r == Err::<(), Error>(Error::NotAppAdmin),
            is_finance_member && is_app_admin && incomes@.len() > 100 ==> r == Err::<(), Error>(
                Error::ModelIncomeParamsTooLarge,
            ),
            is_finance_member && is_app_admin && incomes@.len() <= 100 && stage
                != ModelIncomeStage::COLLECTING ==> r == Err::<(), Error>(Error::ModelIncomeNotInCollectingStage),
            is_finance_member && is_app_admin && incomes@.len() <= 100 && stage == ModelIncomeStage::COLLECTING
                ==> {
                let e = batch_effect(
                    old(self).model_income@,
                    old(self).total as int,
                    app_total(old(self).app_income@, app_id),
                    app_id,
                    model_ids@.map_values(|v: Vec<u8>| v@),
                    incomes@,
                    eligible@,
                    incomes@.len() as int,
                );
                &&& (r is Ok <==> e is Some)
                &&& r is Err ==> r == Err::<(), Error>(Error::AddOverflow)
                &&& r is Ok ==> {
                    &&& final(self).model_income@ == e.unwrap().0
                    &&& final(self).total == e.unwrap().1
                    &&& final(self).app_income@ == old(self).app_income@.insert(
                        (app_id, Seq::empty()),
                        e.unwrap().2 as u64,
                    )
                }
            },
    {
        if !is_finance_member {
            return Err(Error::AuthIdentityNotFinanceMember);
        }
        if !is_app_admin {
            return Err(Error::NotAppAdmin);
        }
        if incomes.len() > 100 {
            return Err(Error::ModelIncomeParamsTooLarge);
        }
        if stage != ModelIncomeStage::COLLECTING {
            return Err(Error::ModelIncomeNotInCollectingStage);
        }
        let ghost ids = model_ids@.map_values(|v: Vec<u8>| v@);
        let mut models = self.model_income.duplicate();
        let mut total = self.total;
        let mut app = self.app_cycle_income(app_id);
        let mut idx: usize = 0;
        while idx < incomes.len()
            invariant
                0 <= idx <= incomes@.len(),
                model_ids@.len() == incomes@.len(),
                eligible@.len() == incomes@.len(),
                ids == model_ids@.map_values(|v: Vec<u8>| v@),
                is_finance_member && is_app_admin && incomes@.len() <= 100,
                stage == ModelIncomeStage::COLLECTING,
                app <= total,
                batch_effect(
                    old(self).model_income@,
                    old(self).total as int,
                    app_total(old(self).app_income@, app_id),
                    app_id,
                    ids,
                    incomes@,
                    eligible@,
                    idx as int,
                ) == Some((models@, total as int, app as int)),
            decreases incomes@.len() - idx,
        {
            let model_id = &model_ids[idx];
            let income = incomes[idx];
            proof {
                assert(ids[idx as int] == model_id@);
            }
            if eligible[idx] && !models.contains(app_id, model_id) {
                let t = match total.checked_add(income) {
                    Some(t) => t,
                    None => {
                        proof {
                            lemma_none_stays(
                                old(self).model_income@,
                                old(self).total as int,
                                app_total(old(self).app_income@, app_id),
                                app_id,
                                ids,
                                incomes@,
                                eligible@,
                                idx + 1,
                                incomes@.len() as int,
                            );
                        }
                        return Err(Error::AddOverflow);
                    },
                };
                total = t;
                app = app + income;
                models.insert(app_id, model_id, income);
            }
            idx = idx + 1;
        }
        proof {
            assert(model_ids@.map_values(|v: Vec<u8>| v@) == ids);
        }
        self.model_income = models;
        self.total = total;
        let empty: Vec<u8> = Vec::new();
        self.app_income.insert(app_id, &empty, app);
        Ok(())
    }

    /// Records a batch of model incomes of one app, in the collecting stage
    /// only, at most a hundred at once. A model that is missing or disabled,
    /// whose reward was cancelled in the previous cycle, or that already has
    /// an income this cycle is passed over. Nothing is recorded when the
    /// cycle total would overflow.
    pub fn set_model_income(
        &mut self,
        is_finance_member: bool,
        is_app_admin: bool,
        stage: ModelIncomeStage,
        app_id: u32,
        model_ids: &Vec<Vec<u8>>,
        incomes: &Vec<u64>,
        models: &ModelRegistry,
    ) -> (r: Result<(), Error>)
        requires
            model_ids@.len() == incomes@.len(),
            models.wf(),
            app_total(old(self).app_income@, app_id) <= old(self).total,
        ensures
            r is Err ==> final(self).total == old(self).total && final(self).model_income@
                == old(self).model_income@ && final(self).app_income@ == old(self).app_income@,
            final(self).rewards@ == old(self).rewards@,
            !is_finance_member ==> r == Err::<(), Error>(Error::AuthIdentityNotFinanceMember),
            is_finance_member && !is_app_admin ==> r == Err::<(), Error>(Error::NotAppAdmin),
            is_finance_member && is_app_admin && incomes@.len() > 100 ==> r == Err::<(), Error>(
                Error::ModelIncomeParamsTooLarge,
            ),
            is_finance_member && is_app_admin && incomes@.len() <= 100 && stage
                != ModelIncomeStage::COLLECTING ==> r == Err::<(), Error>(Error::ModelIncomeNotInCollectingStage),
            is_finance_member && is_app_admin && incomes@.len() <= 100 && stage == ModelIncomeStage::COLLECTING
                ==> {
                let e = batch_effect(
                    old(self).model_income@,
                    old(self).total as int,
                    app_total(old(self).app_income@, app_id),
                    app_id,
                    model_ids@.map_values(|v: Vec<u8>| v@),
                    incomes@,
                    eligibility(*models, app_id, model_ids@.map_values(|v: Vec<u8>| v@), old(self).cycle),
                    incomes@.len() as int,
                );
                &&& (r is Ok <==> e is Some)
                &&& r is Err ==> r == Err::<(), Error>(Error::AddOverflow)
                &&& r is Ok ==> {
                    &&& final(self).model_income@ == e.unwrap().0
                    &&& final(self).total == e.unwrap().1
                    &&& final(self).app_income@ == old(self).app_income@.insert(
                        (app_id, Seq::empty()),
                        e.unwrap().2 as u64,
                    )
                }
            },
    {
        let mut eligible: Vec<bool> = Vec::new();
        let mut k: usize = 0;
        while k < model_ids.len()
            invariant
                0 <= k <= model_ids@.len(),
                models.wf(),
                eligible@.len() == k,
                forall|j: int|
                    0 <= j < k ==> eligible@[j] == (models.valid_model(app_id, model_ids@[j]@)
                        && !models.slashed_before(app_id, model_ids@[j]@, self.cycle)),
            decreases model_ids@.len() - k,
        {
            let ok = models.is_valid_model(app_id, &model_ids[k]) && !models.is_slashed_before(
                app_id,
                &model_ids[k],
                self.cycle,
            );
            eligible.push(ok);
            k = k + 1;
        }
        proof {
            assert(eligible@ =~= eligibility(*models, app_id, model_ids@.map_values(|v: Vec<u8>| v@), self.cycle));
        }
        self.record_model_incomes(is_finance_member, is_app_admin, stage, app_id, model_ids, incomes, &eligible)
    }

    /// Pays a model its share of the cycle's reward pool: its income over
    /// the cycle's total income. Only for an existing enabled model, in the
    /// rewarding stage, to the model's creator, once per cycle, and not when
    /// the model's reward was cancelled in the previous cycle.
    pub fn request_model_reward(
        &mut self,
        models: &ModelRegistry,
        is_model_creator: bool,
        stage: ModelIncomeStage,
        app_id: u32,
        model_id: &Vec<u8>,
        reward_total: Balance,
    ) -> (r: Result<Balance, Error>)
        requires
            models.wf(),
        ensures
            final(self).total == old(self).total,
            final(self).model_income@ == old(self).model_income@,
            final(self).app_income@ == old(self).app_income@,
            ({
                let key = (app_id, model_id@);
                let income = if old(self).model_income@.contains_key(key) {
                    old(self).model_income@[key] as int
                } else {
                    0
                };
                let e = if !models.valid_model(app_id, model_id@) {
                    Some(Error::ModelNotFoundOrDisabled)
                } else if !is_model_creator {
                    Some(Error::NotModelCreator)
                } else if stage != ModelIncomeStage::REWARDING {
                    Some(Error::ModelIncomeNotInRewardingStage)
                } else if old(self).rewards@.contains_key(key) {
                    Some(Error::ModelCycleRewardAlreadyExisted)
                } else if models.slashed_before(app_id, model_id@, old(self).cycle) {
                    Some(Error::ModelCycleRewardSlashed)
                } else if old(self).total == 0 {
                    Some(Error::ModelCycleIncomeTotalZero)
                } else if income == 0 {
                    Some(Error::ModelCycleIncomeZero)
                } else {
                    None::<Error>
                };
                let reward = per_mul(
                    PERMILL_ONE as int,
                    per_from_rational(PERMILL_ONE as int, income, old(self).total as int),
                    reward_total as int,
                );
                &&& (r is Err <==> e is Some)
                &&& e is Some ==> r == Err::<Balance, Error>(e.unwrap()) && final(self).rewards@
                    == old(self).rewards@
                &&& r is Ok ==> r.unwrap() == reward && final(self).rewards@ == old(self).rewards@.insert(
                    key,
                    reward as u128,
                )
            }),
    {
        if !models.is_valid_model(app_id, model_id) {
            return Err(Error::ModelNotFoundOrDisabled);
        }
        if !is_model_creator {
            return Err(Error::NotModelCreator);
        }
        if stage != ModelIncomeStage::REWARDING {
            return Err(Error::ModelIncomeNotInRewardingStage);
        }
        if self.rewards.contains(app_id, model_id) {
            return Err(Error::ModelCycleRewardAlreadyExisted);
        }
        if models.is_slashed_before(app_id, model_id, self.cycle) {
            return Err(Error::ModelCycleRewardSlashed);
        }
        if self.total == 0 {
            return Err(Error::ModelCycleIncomeTotalZero);
        }
        let income = match self.model_income.get(app_id, model_id) {
            Some(v) => v,
            None => 0,
        };
        if income == 0 {
            return Err(Error::ModelCycleIncomeZero);
        }
        proof {
            lemma_from_rational_bounded(PERMILL_ONE as int, income as int, self.total as int);
        }
        let per = permill_from_rational(income, self.total);
        let reward = permill_mul_balance(per, reward_total);
        self.rewards.insert(app_id, model_id, reward);
        Ok(reward)
    }
}

proof fn lemma_none_stays(
    models: Map<(u32, Seq<u8>), u64>,
    total: int,
    app: int,
    app_id: u32,
    ids: Seq<Seq<u8>>,
    incomes: Seq<u64>,
    eligible: Seq<bool>,
    a: int,
    b: int,
)
    requires
        batch_effect(models, total, app, app_id, ids, incomes, eligible, a) is None,
        a <= b,
    ensures
        batch_effect(models, total, app, app_id, ids, incomes, eligible, b) is None,
    decreases b - a,
{
    if a < b {
        lemma_none_stays(models, total, app, app_id, ids, incomes, eligible, a, b - 1);
    }
}

/// Whether `max` is the largest deposit of the members.
pub open spec fn is_max_deposit(members: Seq<(AccountId, Balance)>, max: Balance) -> bool {
    &&& exists|i: int| 0 <= i < members.len() && members[i].1 == max
    &&& forall|i: int| 0 <= i < members.len() ==> members[i].1 <= max
}

/// The accounts, in order, of the members whose deposit is `max`.
pub open spec fn holders_of(members: Seq<(AccountId, Balance)>, max: Balance) -> Seq<Seq<u8>> {
    members.filter(|m: (AccountId, Balance)| m.1 == max).map_values(|m: (AccountId, Balance)| m.0@)
}

/// The members eligible as finance delegate: those holding the largest
/// deposit, when it reaches the minimum; nobody otherwise.
pub fn valid_finance_members(members: &Vec<(AccountId, Balance)>, min_deposit: Balance) -> (r: Vec<AccountId>)
    ensures
        members@.len() == 0 ==> r@.len() == 0,
        members@.len() > 0 ==> exists|max: Balance|
            {
                &&& is_max_deposit(members@, max)
                &&& max < min_deposit ==> r@.len() == 0
                &&& max >= min_deposit ==> r@.map_values(|a: AccountId| a@) == holders_of(members@, max)
            },
{
    if members.len() == 0 {
        return Vec::new();
    }
    let mut max: Balance = members[0].1;
    let mut i: usize = 1;
    while i < members.len()
        invariant
            1 <= i <= members@.len(),
            exists|k: int| 0 <= k < i && members@[k].1 == max,
            forall|k: int| 0 <= k < i ==> members@[k].1 <= max,
        decreases members@.len() - i,
    {
        if members[i].1 > max {
            max = members[i].1;
        }
        i = i + 1;
    }
    proof {
        assert(is_max_deposit(members@, max));
    }
    if max < min_deposit {
        return Vec::new();
    }
    let mut out: Vec<AccountId> = Vec::new();
    let mut j: usize = 0;
    while j < members.len()
        invariant
            0 <= j <= members@.len(),
            is_max_deposit(members@, max),
            max >= min_deposit,
            out@.map_values(|a: AccountId| a@) == holders_of(members@.subrange(0, j as int), max),
        decreases members@.len() - j,
    {
        let ghost before = out@;
        let ghost s0 = members@.subrange(0, j as int);
        let ghost s1 = members@.subrange(0, j + 1);
        proof {
            assert(s1.drop_last() =~= s0);
            assert(s1.last() == members@[j as int]);
            reveal(Seq::filter);
            assert(s1.filter(|m: (AccountId, Balance)| m.1 == max) == if members@[j as int].1 == max {
                s0.filter(|m: (AccountId, Balance)| m.1 == max).push(members@[j as int])
            } else {
                s0.filter(|m: (AccountId, Balance)| m.1 == max)
            });
        }
        if members[j].1 == max {
            out.push(members[j].0.clone());
            proof {
                assert(out@.map_values(|a: AccountId| a@) =~= before.map_values(|a: AccountId| a@).push(
                    members@[j as int].0@,
                ));
                assert(holders_of(s1, max) =~= holders_of(s0, max).push(members@[j as int].0@));
            }
        }
        j = j + 1;
    }
    proof {
        assert(members@.subrange(0, members@.len() as int) =~= members@);
        assert(out@.map_values(|a: AccountId| a@) == holders_of(members@, max));
        assert(is_max_deposit(members@, max));
    }
    out
}

/// The delegate that a beacon picks among the candidates: the first word
/// of the seeded stream modulo their number.
pub open spec fn chosen_member(seed: Seq<u8>, count: int) -> int {
    chacha_words(seed, 1)[0] as int % count
}

/// Picks the finance delegate among the candidates with a beacon seed.
pub fn choose_finance_member(seed: [u8; 32], candidates: &Vec<AccountId>) -> (r: Result<AccountId, Error>)
    ensures
        candidates@.len() == 0 ==> r == Err::<AccountId, Error>(Error::NotFoundValidFinanceMember),
        candidates@.len() > 0 ==> r is Ok && r.unwrap()@ == candidates@[chosen_member(
            seed@,
            candidates@.len() as int,
        )]@,
{
    if candidates.len() == 0 {
        return Err(Error::NotFoundValidFinanceMember);
    }
    let words = draw_words(seed, 1);
    let n = candidates.len();
    let pick = (words[0] as usize) % n;
    Ok(candidates[pick].clone())
}

/// What slashing a finance member's deposit for `amount` moves: nothing
/// from an empty deposit, else as much of the amount as the deposit
/// holds. Returns the amount moved and the deposit left.
pub fn slash_finance_member(deposit: Balance, amount: Balance) -> (r: Option<(Balance, Balance)>)
    ensures
        deposit == 0 <==> r is None,
        r is Some ==> {
            let (slash, left) = r.unwrap();
            &&& slash == if deposit < amount { deposit } else { amount }
            &&& left == deposit - slash
        },
{
    if deposit == 0 {
        return None;
    }
    let slash = if deposit < amount { deposit } else { amount };
    Some((slash, deposit - slash))
}

} // verus!
