//! The models of each app, their deposits and the commodity types.

use vstd::prelude::*;
use crate::error::Error;
use crate::exchange::Balance;
use crate::power::AccountId;
use crate::table::Table;

verus! {

/// Whether a model takes part.
#[derive(Clone, Copy, Debug, PartialEq, Eq, Structural)]
pub enum ModelStatus {
    ENABLED,
    DISABLED,
}

impl ModelStatus {
    /// The status of a status byte: 1 disabled, anything else enabled.
    pub fn from_u8(b: u8) -> (r: ModelStatus)
        ensures
            r == (if b == 1 { ModelStatus::DISABLED } else { ModelStatus::ENABLED }),
    {
        if b == 1 {
            ModelStatus::DISABLED
        } else {
            ModelStatus::ENABLED
        }
    }
}

/// A model of an app.
#[derive(Clone, Debug)]
pub struct KPModelData {
    pub app_id: u32,
    pub model_id: Vec<u8>,
    pub expert_id: Vec<u8>,
    pub status: ModelStatus,
    pub commodity_name: Vec<u8>,
    pub commodity_type: u32,
    pub owner: AccountId,
    pub create_reward: Balance,
}

/// A commodity type.
#[derive(Clone, Debug)]
pub struct CommodityTypeData {
    pub type_id: u32,
    pub type_desc: Vec<u8>,
}

/// Whether a pair is in a list.
pub open spec fn has_pair(s: Seq<(u32, u32)>, p: (u32, u32)) -> bool {
    exists|i: int| 0 <= i < s.len() && s[i] == p
}

/// Type ids in strictly increasing order.
pub open spec fn types_sorted(s: Seq<CommodityTypeData>) -> bool {
    forall|i: int, j: int| 0 <= i < j < s.len() ==> s[i].type_id < s[j].type_id
}

/// Whether a type id is among the commodity types.
pub open spec fn has_type(s: Seq<CommodityTypeData>, t: u32) -> bool {
    exists|i: int| 0 <= i < s.len() && s[i].type_id == t
}

/// Models, deposits, model counts and caps per app, commodity types, and
/// the `(app, type)` pairs whose first model was rewarded.
pub struct ModelRegistry {
    pub models: Vec<KPModelData>,
    /// `(app, model id)` to position in `models`.
    pub model_index: Table<usize>,
    /// `(app, model id)` to the model's deposit.
    pub deposits: Table<Balance>,
    /// `(app, empty id)` to the number of models of the app.
    pub model_count: Table<u32>,
    /// `(app, empty id)` to the cap on the app's models (0: no cap).
    pub model_total: Table<u32>,
    pub commodity_types: Vec<CommodityTypeData>,
    pub first_type_benefit: Vec<(u32, u32)>,
    /// `(app, model id)` to the cycle in which the model's reward was
    /// cancelled by a dispute.
    pub slash_cycle: Table<u32>,
}

/// A count or cap of an app, zero when none was set.
pub open spec fn app_value(m: Map<(u32, Seq<u8>), u32>, app_id: u32) -> u32 {
    if m.contains_key((app_id, Seq::empty())) {
        m[(app_id, Seq::empty())]
    } else {
        0
    }
}

/// Why creating a model is rejected, in the order the guards apply.
pub open spec fn create_model_rejection(
    r: ModelRegistry,
    is_valid_app: bool,
    is_app_key: bool,
    app_id: u32,
    model_id: Seq<u8>,
    commodity_type: u32,
    deposit: Balance,
    free_balance: Balance,
) -> Option<Error> {
    let count = app_value(r.model_count@, app_id);
    let cap = app_value(r.model_total@, app_id);
    if !is_valid_app {
        Some(Error::AppIdInvalid)
    } else if !is_app_key {
        Some(Error::AuthIdentityNotAppKey)
    } else if r.model_index@.contains_key((app_id, model_id)) {
        Some(Error::ModelAlreadyExisted)
    } else if !has_type(r.commodity_types@, commodity_type) {
        Some(Error::ModelTypeInvalid)
    } else if cap > 0 && count >= cap {
        Some(Error::ModelOverSizeLimit)
    } else if count == u32::MAX {
        Some(Error::AddOverflow)
    } else if free_balance < deposit {
        Some(Error::BalanceNotEnough)
    } else {
        None
    }
}

fn app_value_of(t: &Table<u32>, app_id: u32) -> (r: u32)
    ensures
        r == app_value(t@, app_id),
{
    let empty: Vec<u8> = Vec::new();
    match t.get(app_id, &empty) {
        Some(v) => v,
        None => 0,
    }
}

impl ModelRegistry {
    /// Indexes point at models of the same app and id; types are sorted.
    pub open spec fn wf(&self) -> bool {
        &&& forall|k: (u32, Seq<u8>)|
            self.model_index@.contains_key(k) ==> #[trigger] self.model_index@[k] < self.models@.len()
                && self.models@[self.model_index@[k] as int].app_id == k.0
                && self.models@[self.model_index@[k] as int].model_id@ == k.1
        &&& types_sorted(self.commodity_types@)
    }

    /// No models and no types.
    pub fn new() -> (r: ModelRegistry)
        ensures
            r.wf(),
            r.models@.len() == 0,
    {
        ModelRegistry {
            models: Vec::new(),
            model_index: Table::new(),
            deposits: Table::new(),
            model_count: Table::new(),
            model_total: Table::new(),
            commodity_types: Vec::new(),
            first_type_benefit: Vec::new(),
            slash_cycle: Table::new(),
        }
    }

    /// Whether a model exists and is enabled.
    pub open spec fn valid_model(&self, app_id: u32, model_id: Seq<u8>) -> bool {
        self.model_index@.contains_key((app_id, model_id))
            && self.models@[self.model_index@[(app_id, model_id)] as int].status == ModelStatus::ENABLED
    }

    /// Whether a model's reward was cancelled in the cycle before `cycle`.
    pub open spec fn slashed_before(&self, app_id: u32, model_id: Seq<u8>, cycle: u32) -> bool {
        self.slash_cycle@.contains_key((app_id, model_id)) && self.slash_cycle@[(app_id, model_id)] + 1 == cycle
    }

    /// Whether a model's reward was cancelled in the cycle before `cycle`.
    pub fn is_slashed_before(&self, app_id: u32, model_id: &Vec<u8>, cycle: u32) -> (r: bool)
        ensures
            r == self.slashed_before(app_id, model_id@, cycle),
    {
        match self.slash_cycle.get(app_id, model_id) {
            Some(c) => c as u64 + 1 == cycle as u64,
            None => false,
        }
    }

    /// Records that a model's reward of `cycle` is cancelled.
    pub fn cancel_cycle_reward(&mut self, app_id: u32, model_id: &Vec<u8>, cycle: u32)
        requires
            old(self).wf(),
        ensures
            final(self).wf(),
            final(self).slash_cycle@ == old(self).slash_cycle@.insert((app_id, model_id@), cycle),
            final(self).models == old(self).models,
            final(self).model_index == old(self).model_index,
    {
        self.slash_cycle.insert(app_id, model_id, cycle);
    }

    /// Whether a model exists and is enabled.
    pub fn is_valid_model(&self, app_id: u32, model_id: &Vec<u8>) -> (r: bool)
        requires
            self.wf(),
        ensures
            r == self.valid_model(app_id, model_id@),
    {
        match self.model_index.get(app_id, model_id) {
            Some(i) => self.models[i].status == ModelStatus::ENABLED,
            None => false,
        }
    }

    /// Caps the number of models of an app (0 removes the cap).
    pub fn set_app_model_total(&mut self, app_id: u32, total: u32)
        ensures
            final(self).model_total@ == old(self).model_total@.insert((app_id, Seq::empty()), total),
            final(self).models == old(self).models,
            final(self).model_index == old(self).model_index,
            final(self).commodity_types == old(self).commodity_types,
    {
        let empty: Vec<u8> = Vec::new();
        self.model_total.insert(app_id, &empty, total);
    }

    /// Whether the first model of a type in an app is still to be rewarded.
    pub fn first_type_benefit_due(&self, app_id: u32, commodity_type: u32) -> (r: bool)
        ensures
            r == !has_pair(self.first_type_benefit@, (app_id, commodity_type)),
    {
        let mut i: usize = 0;
        while i < self.first_type_benefit.len()
            invariant
                0 <= i <= self.first_type_benefit@.len(),
                forall|j: int| 0 <= j < i ==> self.first_type_benefit@[j] != (app_id, commodity_type),
            decreases self.first_type_benefit@.len() - i,
        {
            let p = self.first_type_benefit[i];
            if p.0 == app_id && p.1 == commodity_type {
                return false;
            }
            i = i + 1;
        }
        true
    }

    /// Adds a commodity type, kept in order of type id. Rejected when the
    /// type exists.
    pub fn create_commodity_type(&mut self, type_id: u32, type_desc: &Vec<u8>) -> (r: Result<(), Error>)
        requires
            old(self).wf(),
        ensures
            final(self).wf(),
            r is Err <==> has_type(old(self).commodity_types@, type_id),
            r is Err ==> r == Err::<(), Error>(Error::CommodityTypeExisted) && final(self).commodity_types
                == old(self).commodity_types,
            r is Ok ==> final(self).commodity_types@.len() == old(self).commodity_types@.len() + 1
                && has_type(final(self).commodity_types@, type_id),
            forall|t: u32| has_type(old(self).commodity_types@, t) ==> has_type(final(self).commodity_types@, t),
            final(self).models == old(self).models,
            final(self).model_index == old(self).model_index,
    {
        let mut lo: usize = 0;
        let mut hi: usize = self.commodity_types.len();
        while lo < hi
            invariant
                0 <= lo <= hi <= self.commodity_types@.len(),
                self.wf(),
                self == old(self),
                forall|j: int| 0 <= j < lo ==> self.commodity_types@[j].type_id < type_id,
                forall|j: int| hi <= j < self.commodity_types@.len() ==> self.commodity_types@[j].type_id > type_id,
            decreases hi - lo,
        {
            let mid = lo + (hi - lo) / 2;
            let t = self.commodity_types[mid].type_id;
            if t == type_id {
                return Err(Error::CommodityTypeExisted);
            } else if t < type_id {
                lo = mid + 1;
            } else {
                hi = mid;
            }
        }
        let ghost before = self.commodity_types@;
        let e = CommodityTypeData { type_id, type_desc: type_desc.clone() };
        self.commodity_types.insert(lo, e);
        proof {
            assert(self.commodity_types@ == before.insert(lo as int, e));
            assert forall|a: int, b: int| 0 <= a < b < self.commodity_types@.len() implies self.commodity_types@[a].type_id
                < self.commodity_types@[b].type_id by {
                if a < lo { assert(self.commodity_types@[a] == before[a]); }
                if a > lo { assert(self.commodity_types@[a] == before[a - 1]); }
                if b < lo { assert(self.commodity_types@[b] == before[b]); }
                if b > lo { assert(self.commodity_types@[b] == before[b - 1]); }
            }
            assert(self.commodity_types@[lo as int].type_id == type_id);
            assert forall|t: u32| has_type(before, t) implies has_type(self.commodity_types@, t) by {
                let i = choose|i: int| 0 <= i < before.len() && before[i].type_id == t;
                if i < lo {
                    assert(self.commodity_types@[i] == before[i]);
                } else {
                    assert(self.commodity_types@[i + 1] == before[i]);
                }
            }
        }
        Ok(())
    }

    /// Creates a model of an app with its owner's deposit: the model must
    /// be new, its type known, and the app under its cap. Returns whether
    /// the model is the first of its type in the app (whose creator is then
    /// rewarded); `create_reward` is what that reward came to.
    pub fn create_model(
        &mut self,
        is_valid_app: bool,
        is_app_key: bool,
        app_id: u32,
        model_id: &Vec<u8>,
        expert_id: &Vec<u8>,
        commodity_name: &Vec<u8>,
        commodity_type: u32,
        owner: &AccountId,
        deposit: Balance,
        free_balance: Balance,
        create_reward: Balance,
    ) -> (r: Result<bool, Error>)
        requires
            old(self).wf(),
        ensures
            final(self).wf(),
            ({
                let e = create_model_rejection(*old(self), is_valid_app, is_app_key, app_id, model_id@,
                    commodity_type, deposit, free_balance);
                &&& (r is Err <==> e is Some)
                &&& e is Some ==> r == Err::<bool, Error>(e.unwrap()) && *final(self) == *old(self)
            }),
            r is Ok ==> {
                let n = old(self).models@.len() as int;
                let m = final(self).models@[n];
                &&& r.unwrap() == !has_pair(old(self).first_type_benefit@, (app_id, commodity_type))
                &&& final(self).models@.len() == n + 1
                &&& final(self).models@.subrange(0, n) == old(self).models@
                &&& m.app_id == app_id && m.model_id@ == model_id@ && m.status == ModelStatus::ENABLED
                    && m.commodity_type == commodity_type && m.owner@ == owner@ && m.create_reward == create_reward
                &&& final(self).model_index@ == old(self).model_index@.insert((app_id, model_id@), n as usize)
                &&& final(self).deposits@ == old(self).deposits@.insert((app_id, model_id@), deposit)
                &&& app_value(final(self).model_count@, app_id) == app_value(old(self).model_count@, app_id) + 1
                &&& has_pair(final(self).first_type_benefit@, (app_id, commodity_type))
            },
    {
        if !is_valid_app {
            return Err(Error::AppIdInvalid);
        }
        if !is_app_key {
            return Err(Error::AuthIdentityNotAppKey);
        }
        if self.model_index.contains(app_id, model_id) {
            return Err(Error::ModelAlreadyExisted);
        }
        let mut known = false;
        let mut i: usize = 0;
        while i < self.commodity_types.len()
            invariant
                0 <= i <= self.commodity_types@.len(),
                known == exists|j: int| 0 <= j < i && self.commodity_types@[j].type_id == commodity_type,
            decreases self.commodity_types@.len() - i,
        {
            if self.commodity_types[i].type_id == commodity_type {
                known = true;
            }
            i = i + 1;
        }
        if !known {
            return Err(Error::ModelTypeInvalid);
        }
        let count = app_value_of(&self.model_count, app_id);
        let cap = app_value_of(&self.model_total, app_id);
        if cap > 0 && count >= cap {
            return Err(Error::ModelOverSizeLimit);
        }
        if count == u32::MAX {
            return Err(Error::AddOverflow);
        }
        if free_balance < deposit {
            return Err(Error::BalanceNotEnough);
        }
        let first = self.first_type_benefit_due(app_id, commodity_type);
        if first {
            self.first_type_benefit.push((app_id, commodity_type));
            proof {
                let k = self.first_type_benefit@.len() - 1;
                assert(self.first_type_benefit@[k] == (app_id, commodity_type));
            }
        } else {
            proof {
                assert(has_pair(self.first_type_benefit@, (app_id, commodity_type)));
            }
        }
        let n = self.models.len();
        let ghost before = self.models@;
        self.models.push(KPModelData {
            app_id,
            model_id: model_id.clone(),
            expert_id: expert_id.clone(),
            status: ModelStatus::ENABLED,
            commodity_name: commodity_name.clone(),
            commodity_type,
            owner: owner.clone(),
            create_reward,
        });
        self.model_index.insert(app_id, model_id, n);
        self.deposits.insert(app_id, model_id, deposit);
        let empty: Vec<u8> = Vec::new();
        self.model_count.insert(app_id, &empty, count + 1);
        proof {
            assert(self.models@.subrange(0, n as int) =~= before);
            assert forall|k: (u32, Seq<u8>)| self.model_index@.contains_key(k) implies #[trigger] self.model_index@[k]
                < self.models@.len() && self.models@[self.model_index@[k] as int].app_id == k.0
                && self.models@[self.model_index@[k] as int].model_id@ == k.1 by {
                if k != (app_id, model_id@) {
                    assert(old(self).model_index@.contains_key(k));
                    assert(self.models@[self.model_index@[k] as int] == before[self.model_index@[k] as int]);
                }
            }
        }
        Ok(first)
    }

    /// Adds to a model's deposit; only its creator may.
    pub fn add_model_deposit(
        &mut self,
        is_model_creator: bool,
        app_id: u32,
        model_id: &Vec<u8>,
        amount: Balance,
        free_balance: Balance,
    ) -> (r: Result<Balance, Error>)
        requires
            old(self).wf(),
        ensures
            final(self).wf(),
            ({
                let cur = if old(self).deposits@.contains_key((app_id, model_id@)) {
                    old(self).deposits@[(app_id, model_id@)] as int
                } else {
                    0
                };
                let e = if !is_model_creator {
                    Some(Error::NotModelCreator)
                } else if free_balance < amount {
                    Some(Error::BalanceNotEnough)
                } else if cur + amount > u128::MAX {
                    Some(Error::AddOverflow)
                } else {
                    None::<Error>
                };
                &&& (r is Err <==> e is Some)
                &&& e is Some ==> r == Err::<Balance, Error>(e.unwrap()) && *final(self) == *old(self)
                &&& r is Ok ==> r.unwrap() == cur + amount && final(self).deposits@ == old(self).deposits@.insert(
                    (app_id, model_id@),
                    (cur + amount) as u128,
                )
            }),
            final(self).models == old(self).models,
            final(self).model_index == old(self).model_index,
    {
        if !is_model_creator {
            return Err(Error::NotModelCreator);
        }
        if free_balance < amount {
            return Err(Error::BalanceNotEnough);
        }
        let cur = match self.deposits.get(app_id, model_id) {
            Some(v) => v,
            None => 0,
        };
        let total = match cur.checked_add(amount) {
            Some(t) => t,
            None => {
                return Err(Error::AddOverflow);
            },
        };
        self.deposits.insert(app_id, model_id, total);
        Ok(total)
    }

    /// Hands a valid model over to the app's admin, who must hold the
    /// model's deposit; returns the deposit that moves from the creator to
    /// the admin.
    pub fn model_owner_release(
        &mut self,
        is_model_creator: bool,
        is_app_admin: bool,
        app_id: u32,
        model_id: &Vec<u8>,
        admin: &AccountId,
        admin_free_balance: Balance,
    ) -> (r: Result<Balance, Error>)
        requires
            old(self).wf(),
        ensures
            final(self).wf(),
            ({
                let valid = old(self).model_index@.contains_key((app_id, model_id@))
                    && old(self).models@[old(self).model_index@[(app_id, model_id@)] as int].status
                    == ModelStatus::ENABLED;
                let deposit = if old(self).deposits@.contains_key((app_id, model_id@)) {
                    old(self).deposits@[(app_id, model_id@)]
                } else {
                    0
                };
                let e = if !is_model_creator {
                    Some(Error::NotModelCreator)
                } else if !is_app_admin {
                    Some(Error::NotAppAdmin)
                } else if !valid {
                    Some(Error::ModelNotFoundOrDisabled)
                } else if admin_free_balance < deposit {
                    Some(Error::BalanceNotEnough)
                } else {
                    None::<Error>
                };
                &&& (r is Err <==> e is Some)
                &&& e is Some ==> r == Err::<Balance, Error>(e.unwrap()) && *final(self) == *old(self)
                &&& r is Ok ==> {
                    let i = old(self).model_index@[(app_id, model_id@)] as int;
                    &&& r.unwrap() == deposit
                    &&& final(self).models@.len() == old(self).models@.len()
                    &&& forall|j: int| 0 <= j < old(self).models@.len() && j != i ==> final(self).models@[j]
                        == old(self).models@[j]
                    &&& final(self).models@[i].owner@ == admin@
                    &&& final(self).models@[i].model_id@ == model_id@
                    &&& final(self).models@[i].app_id == app_id
                    &&& final(self).models@[i].status == ModelStatus::ENABLED
                }
            }),
            final(self).model_index == old(self).model_index,
            final(self).deposits == old(self).deposits,
    {
        if !is_model_creator {
            return Err(Error::NotModelCreator);
        }
        if !is_app_admin {
            return Err(Error::NotAppAdmin);
        }
        let i = match self.model_index.get(app_id, model_id) {
            Some(i) => i,
            None => {
                return Err(Error::ModelNotFoundOrDisabled);
            },
        };
        if self.models[i].status != ModelStatus::ENABLED {
            return Err(Error::ModelNotFoundOrDisabled);
        }
        let deposit = match self.deposits.get(app_id, model_id) {
            Some(d) => d,
            None => 0,
        };
        if admin_free_balance < deposit {
            return Err(Error::BalanceNotEnough);
        }
        let ghost before = self.models@;
        let m = &self.models[i];
        let updated = KPModelData {
            app_id: m.app_id,
            model_id: m.model_id.clone(),
            expert_id: m.expert_id.clone(),
            status: m.status,
            commodity_name: m.commodity_name.clone(),
            commodity_type: m.commodity_type,
            owner: admin.clone(),
            create_reward: m.create_reward,
        };
        self.models.set(i, updated);
        proof {
            assert forall|k: (u32, Seq<u8>)| self.model_index@.contains_key(k) implies #[trigger] self.model_index@[k]
                < self.models@.len() && self.models@[self.model_index@[k] as int].app_id == k.0
                && self.models@[self.model_index@[k] as int].model_id@ == k.1 by {
                if self.model_index@[k] as int != i as int {
                    assert(self.models@[self.model_index@[k] as int] == before[self.model_index@[k] as int]);
                }
            }
        }
        Ok(deposit)
    }
}

} // verus!
