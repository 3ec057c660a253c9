//! The stages of the income cycle, derived from the block number alone.

use vstd::prelude::*;

verus! {

/// A block number.
pub type BlockNumber = u32;

/// The stage of an income cycle.
#[derive(Clone, Copy, Debug, PartialEq, Eq, Structural)]
pub enum ModelIncomeStage {
    NORMAL,
    COLLECTING,
    REWARDING,
    CONFIRMING,
    COMPENSATING,
}

/// The stage as a number, 0 to 4 in cycle order.
pub open spec fn stage_code(s: ModelIncomeStage) -> u8 {
    match s {
        ModelIncomeStage::NORMAL => 0,
        ModelIncomeStage::COLLECTING => 1,
        ModelIncomeStage::REWARDING => 2,
        ModelIncomeStage::CONFIRMING => 3,
        ModelIncomeStage::COMPENSATING => 4,
    }
}

impl ModelIncomeStage {
    /// The stage as a number, 0 to 4 in cycle order.
    pub fn code(&self) -> (r: u8)
        ensures
            r == stage_code(*self),
    {
        match self {
            ModelIncomeStage::NORMAL => 0,
            ModelIncomeStage::COLLECTING => 1,
            ModelIncomeStage::REWARDING => 2,
            ModelIncomeStage::CONFIRMING => 3,
            ModelIncomeStage::COMPENSATING => 4,
        }
    }
}

/// The lengths that shape a cycle: the cycle itself, collecting, and
/// rewarding (confirming and compensating each last half of rewarding).
#[derive(Clone, Copy, Debug, PartialEq, Eq, Structural)]
pub struct CycleConfig {
    pub cycle_period: BlockNumber,
    pub collecting_period: BlockNumber,
    pub rewarding_period: BlockNumber,
}

/// Positive cycle length, and stage bounds that fit a block number.
pub open spec fn config_wf(c: CycleConfig) -> bool {
    c.cycle_period > 0 && c.collecting_period + c.rewarding_period + 2 * (c.rewarding_period / 2) <= u32::MAX
}

/// A stage and the blocks left in it.
pub struct ModelIncomeCurrentStage {
    pub stage: u8,
    pub left: BlockNumber,
}

/// The index of the cycle that a block falls in.
pub fn model_income_cycle_index(c: &CycleConfig, block: BlockNumber) -> (r: BlockNumber)
    requires
        c.cycle_period > 0,
    ensures
        r == block / c.cycle_period,
{
    block / c.cycle_period
}

/// The stage of a block and the blocks left in it: the first cycle is
/// normal throughout; in later cycles the offset into the cycle runs
/// through collecting, rewarding, confirming and compensating, and the rest
/// of the cycle is normal.
pub open spec fn stage_spec(c: CycleConfig, block: int) -> (ModelIncomeStage, int) {
    let cycle = c.cycle_period as int;
    let col = c.collecting_period as int;
    let rew = c.rewarding_period as int;
    let half = rew / 2;
    let progress = block % cycle;
    if block / cycle == 0 {
        (ModelIncomeStage::NORMAL, cycle - block)
    } else if progress < col {
        (ModelIncomeStage::COLLECTING, col - progress)
    } else if progress < col + rew {
        (ModelIncomeStage::REWARDING, col + rew - progress)
    } else if progress < col + rew + half {
        (ModelIncomeStage::CONFIRMING, col + rew + half - progress)
    } else if progress < col + rew + 2 * half {
        (ModelIncomeStage::COMPENSATING, col + rew + 2 * half - progress)
    } else {
        (ModelIncomeStage::NORMAL, cycle - progress)
    }
}

/// The stage of a block and the blocks left in it.
pub fn model_income_stage(c: &CycleConfig, block: BlockNumber) -> (r: (ModelIncomeStage, BlockNumber))
    requires
        config_wf(*c),
    ensures
        (r.0, r.1 as int) == stage_spec(*c, block as int),
{
    let cycle_blocks = c.cycle_period;
    let cycle_index = model_income_cycle_index(c, block);
    if cycle_index == 0 {
        assert(block < cycle_blocks) by (nonlinear_arith)
            requires
                block / cycle_blocks == 0,
                cycle_blocks > 0,
        ;
        return (ModelIncomeStage::NORMAL, cycle_blocks - block);
    }
    let collecting = c.collecting_period;
    let rewarding = c.rewarding_period;
    let confirming = rewarding / 2;
    let compensating = rewarding / 2;
    let progress = block % cycle_blocks;
    if progress < collecting {
        (ModelIncomeStage::COLLECTING, collecting - progress)
    } else if progress < collecting + rewarding {
        (ModelIncomeStage::REWARDING, collecting + rewarding - progress)
    } else if progress < collecting + rewarding + confirming {
        (ModelIncomeStage::CONFIRMING, collecting + rewarding + confirming - progress)
    } else if progress < collecting + rewarding + confirming + compensating {
        (ModelIncomeStage::COMPENSATING, collecting + rewarding + confirming + compensating - progress)
    } else {
        (ModelIncomeStage::NORMAL, cycle_blocks - progress)
    }
}

/// The current stage, as a number, with the blocks left in it.
pub fn model_income_current_stage(c: &CycleConfig, block: BlockNumber) -> (r: ModelIncomeCurrentStage)
    requires
        config_wf(*c),
    ensures
        r.stage == stage_code(stage_spec(*c, block as int).0),
        r.left == stage_spec(*c, block as int).1,
{
    let (stage, left) = model_income_stage(c, block);
    ModelIncomeCurrentStage { stage: stage.code(), left }
}

} // verus!
