//! Disputes against models and the technical fund's withdrawal amounts.

use vstd::prelude::*;
use crate::arith::{per_from_rational, per_mul, permill_from_rational, permill_mul_balance, lemma_from_rational_bounded, PERMILL_ONE};
use crate::exchange::Balance;
use crate::stage::BlockNumber;

verus! {

/// How serious a dispute against a model is.
#[derive(Clone, Copy, Debug, PartialEq, Eq, Structural)]
pub enum ModelDisputeType {
    NoneIntendNormal,
    IntendNormal,
    Serious,
}

/// The dispute settings: the count at which a cycle's reward is
/// cancelled, the count added by each kind, and each kind's reporter reward.
#[derive(Clone, Copy, Debug)]
pub struct DisputeConfig {
    pub cycle_count: u32,
    pub lv2_increase: u32,
    pub lv3_increase: u32,
    pub reward_lv1: Balance,
    pub reward_lv2: Balance,
    pub reward_lv3: Balance,
}

/// What a dispute decides: the model's new dispute count for the cycle,
/// whether its reward of the cycle is cancelled, whether it is disabled and
/// its deposit slashed, and the reporter's reward.
#[derive(Clone, Copy, Debug, PartialEq, Eq, Structural)]
pub struct DisputeOutcome {
    pub count: u32,
    pub cancel_cycle_reward: bool,
    pub disable_and_slash: bool,
    pub reporter_reward: Balance,
}

/// The decision on a dispute, given the model's dispute count this cycle.
pub open spec fn dispute_spec(count: u32, t: ModelDisputeType, c: DisputeConfig) -> DisputeOutcome {
    match t {
        ModelDisputeType::NoneIntendNormal => DisputeOutcome {
            count: (count + 1) as u32,
            cancel_cycle_reward: false,
            disable_and_slash: false,
            reporter_reward: c.reward_lv1,
        },
        ModelDisputeType::IntendNormal => DisputeOutcome {
            count: (count + c.lv2_increase) as u32,
            cancel_cycle_reward: count >= c.cycle_count,
            disable_and_slash: false,
            reporter_reward: c.reward_lv2,
        },
        ModelDisputeType::Serious => DisputeOutcome {
            count: (count + c.lv3_increase) as u32,
            cancel_cycle_reward: count >= c.cycle_count,
            disable_and_slash: count >= c.cycle_count,
            reporter_reward: c.reward_lv3,
        },
    }
}

/// Decides a dispute: a light one only counts; an intended one cancels the
/// model's reward of the cycle once the count reached the limit; a serious
/// one then also disables the model and slashes its deposit.
pub fn model_dispute(cycle_dispute_count: u32, dispute_type: ModelDisputeType, c: &DisputeConfig) -> (r: DisputeOutcome)
    requires
        cycle_dispute_count + 1 <= u32::MAX,
        cycle_dispute_count + c.lv2_increase <= u32::MAX,
        cycle_dispute_count + c.lv3_increase <= u32::MAX,
    ensures
        r == dispute_spec(cycle_dispute_count, dispute_type, *c),
{
    match dispute_type {
        ModelDisputeType::NoneIntendNormal => DisputeOutcome {
            count: cycle_dispute_count + 1,
            cancel_cycle_reward: false,
            disable_and_slash: false,
            reporter_reward: c.reward_lv1,
        },
        ModelDisputeType::IntendNormal => DisputeOutcome {
            count: cycle_dispute_count + c.lv2_increase,
            cancel_cycle_reward: cycle_dispute_count >= c.cycle_count,
            disable_and_slash: false,
            reporter_reward: c.reward_lv2,
        },
        ModelDisputeType::Serious => DisputeOutcome {
            count: cycle_dispute_count + c.lv3_increase,
            cancel_cycle_reward: cycle_dispute_count >= c.cycle_count,
            disable_and_slash: cycle_dispute_count >= c.cycle_count,
            reporter_reward: c.reward_lv3,
        },
    }
}

/// The field of a technical fund withdrawal.
#[derive(Clone, Copy, Debug, PartialEq, Eq, Structural)]
pub enum TechFundWithdrawType {
    ChainDev,
    Tctp,
    Model,
    Knowledge,
    ChainAdmin,
}

/// The level of a technical fund withdrawal.
#[derive(Clone, Copy, Debug, PartialEq, Eq, Structural)]
pub enum TechFundWithdrawLevel {
    LV1,
    LV2,
    LV3,
    LV4,
    LV5,
}

/// The share of the fund base that a field takes, as `(p, q)`.
pub open spec fn type_share(t: TechFundWithdrawType) -> (int, int) {
    match t {
        TechFundWithdrawType::ChainDev => (45, 100),
        TechFundWithdrawType::Tctp => (30, 100),
        TechFundWithdrawType::Model => (8, 100),
        TechFundWithdrawType::Knowledge => (5, 100),
        TechFundWithdrawType::ChainAdmin => (12, 100),
    }
}

/// The share of a field's amount that a level takes, as `(p, q)`.
pub open spec fn level_share(l: TechFundWithdrawLevel) -> (int, int) {
    match l {
        TechFundWithdrawLevel::LV1 => (25, 100),
        TechFundWithdrawLevel::LV2 => (10, 100),
        TechFundWithdrawLevel::LV3 => (5, 100),
        TechFundWithdrawLevel::LV4 => (1, 100),
        TechFundWithdrawLevel::LV5 => (2, 1000),
    }
}

/// A withdrawal: the level's share of the field's share of the base.
pub open spec fn tech_fund_spec(t: TechFundWithdrawType, l: TechFundWithdrawLevel, base: Balance) -> int {
    let tp = per_from_rational(PERMILL_ONE as int, type_share(t).0, type_share(t).1);
    let lp = per_from_rational(PERMILL_ONE as int, level_share(l).0, level_share(l).1);
    per_mul(PERMILL_ONE as int, lp, per_mul(PERMILL_ONE as int, tp, base as int))
}

/// The amount of a technical fund withdrawal of a field and level.
pub fn compute_tech_fund_withdraw(dev_type: TechFundWithdrawType, dev_level: TechFundWithdrawLevel, base: Balance) -> (r: Balance)
    ensures
        r == tech_fund_spec(dev_type, dev_level, base),
{
    let (tp, tq): (u64, u64) = match dev_type {
        TechFundWithdrawType::ChainDev => (45, 100),
        TechFundWithdrawType::Tctp => (30, 100),
        TechFundWithdrawType::Model => (8, 100),
        TechFundWithdrawType::Knowledge => (5, 100),
        TechFundWithdrawType::ChainAdmin => (12, 100),
    };
    let (lp, lq): (u64, u64) = match dev_level {
        TechFundWithdrawLevel::LV1 => (25, 100),
        TechFundWithdrawLevel::LV2 => (10, 100),
        TechFundWithdrawLevel::LV3 => (5, 100),
        TechFundWithdrawLevel::LV4 => (1, 100),
        TechFundWithdrawLevel::LV5 => (2, 1000),
    };
    proof {
        lemma_from_rational_bounded(PERMILL_ONE as int, tp as int, tq as int);
        lemma_from_rational_bounded(PERMILL_ONE as int, lp as int, lq as int);
    }
    let type_per = permill_from_rational(tp, tq);
    let level_per = permill_from_rational(lp, lq);
    let amount = permill_mul_balance(type_per, base);
    permill_mul_balance(level_per, amount)
}

/// A dispute raised against a model, by the comment that reported it.
#[derive(Clone, Debug)]
pub struct ModelDisputeRecord {
    pub app_id: u32,
    pub model_id: Vec<u8>,
    pub comment_id: Vec<u8>,
    pub dispute_type: ModelDisputeType,
    pub block: BlockNumber,
}

/// A commodity slashed on the report of a comment.
#[derive(Clone, Debug)]
pub struct CommoditySlashRecord {
    pub app_id: u32,
    pub comment_id: Vec<u8>,
    pub cart_id: Vec<u8>,
    pub block: BlockNumber,
}

/// The append-only history of disputes and slashes.
pub struct DisputeHistory {
    pub disputes: Vec<ModelDisputeRecord>,
    pub slashes: Vec<CommoditySlashRecord>,
}

impl DisputeHistory {
    /// An empty history.
    pub fn new() -> (r: DisputeHistory)
        ensures
            r.disputes@.len() == 0,
            r.slashes@.len() == 0,
    {
        DisputeHistory { disputes: Vec::new(), slashes: Vec::new() }
    }

    /// Appends a dispute; earlier entries stay as they are.
    pub fn add_model_dispute_record(
        &mut self,
        app_id: u32,
        model_id: &Vec<u8>,
        comment_id: &Vec<u8>,
        dispute_type: ModelDisputeType,
        block: BlockNumber,
    )
        ensures
            final(self).disputes@.len() == old(self).disputes@.len() + 1,
            final(self).disputes@.drop_last() == old(self).disputes@,
            final(self).disputes@.last().app_id == app_id,
            final(self).disputes@.last().model_id@ == model_id@,
            final(self).disputes@.last().comment_id@ == comment_id@,
            final(self).disputes@.last().dispute_type == dispute_type,
            final(self).disputes@.last().block == block,
            final(self).slashes == old(self).slashes,
    {
        let ghost before = self.disputes@;
        self.disputes.push(ModelDisputeRecord {
            app_id,
            model_id: model_id.clone(),
            comment_id: comment_id.clone(),
            dispute_type,
            block,
        });
        proof {
            assert(self.disputes@.drop_last() =~= before);
        }
    }

    /// Appends a slash; earlier entries stay as they are.
    pub fn add_commodity_power_slash_record(
        &mut self,
        app_id: u32,
        comment_id: &Vec<u8>,
        cart_id: &Vec<u8>,
        block: BlockNumber,
    )
        ensures
            final(self).slashes@.len() == old(self).slashes@.len() + 1,
            final(self).slashes@.drop_last() == old(self).slashes@,
            final(self).slashes@.last().app_id == app_id,
            final(self).slashes@.last().comment_id@ == comment_id@,
            final(self).slashes@.last().cart_id@ == cart_id@,
            final(self).slashes@.last().block == block,
            final(self).disputes == old(self).disputes,
    {
        let ghost before = self.slashes@;
        self.slashes.push(CommoditySlashRecord {
            app_id,
            comment_id: comment_id.clone(),
            cart_id: cart_id.clone(),
            block,
        });
        proof {
            assert(self.slashes@.drop_last() =~= before);
        }
    }
}

} // verus!
