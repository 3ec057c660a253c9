use pallet_kp::stage::{model_income_current_stage, model_income_cycle_index, model_income_stage, CycleConfig, ModelIncomeStage};

fn cfg() -> CycleConfig {
    CycleConfig { cycle_period: 1000, collecting_period: 100, rewarding_period: 400 }
}

#[test]
fn stage_example_rewarding_and_normal() {
    let c = cfg();
    assert_eq!(model_income_stage(&c, 1150), (ModelIncomeStage::REWARDING, 350));
    assert_eq!(model_income_stage(&c, 1950), (ModelIncomeStage::NORMAL, 50));
    assert_eq!(model_income_stage(&c, 950), (ModelIncomeStage::NORMAL, 50));
}

#[test]
fn stage_first_cycle_is_normal() {
    let c = cfg();
    assert_eq!(model_income_stage(&c, 150), (ModelIncomeStage::NORMAL, 850));
    assert_eq!(model_income_cycle_index(&c, 150), 0);
}

#[test]
fn stage_all_windows() {
    let c = cfg();
    assert_eq!(model_income_stage(&c, 1000), (ModelIncomeStage::COLLECTING, 100));
    assert_eq!(model_income_stage(&c, 1099), (ModelIncomeStage::COLLECTING, 1));
    assert_eq!(model_income_stage(&c, 1100), (ModelIncomeStage::REWARDING, 400));
    assert_eq!(model_income_stage(&c, 1500), (ModelIncomeStage::CONFIRMING, 200));
    assert_eq!(model_income_stage(&c, 1700), (ModelIncomeStage::COMPENSATING, 200));
    assert_eq!(model_income_stage(&c, 1900), (ModelIncomeStage::NORMAL, 100));
    assert_eq!(model_income_cycle_index(&c, 2345), 2);
    let s = model_income_current_stage(&c, 1500);
    assert_eq!((s.stage, s.left), (3, 200));
}
