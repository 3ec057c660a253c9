use pallet_kp::dispute::{compute_tech_fund_withdraw, model_dispute, DisputeConfig, ModelDisputeType, TechFundWithdrawLevel, TechFundWithdrawType};
use pallet_kp::error::Error;
use pallet_kp::exchange::{democracy_app_financed, AppIncomeCycleRecord, ExchangeStatus};
use pallet_kp::income::{choose_finance_member, slash_finance_member, valid_finance_members, ModelCycleIncome};
use pallet_kp::model::ModelRegistry;
use pallet_kp::stage::ModelIncomeStage;
use pallet_kp::vote::{account_power_relative, balance_apply_power, kp_staking_to_vote, power_factor};

const U: u128 = 1_000_000_000_000;

fn registry(ids: &[u8]) -> ModelRegistry {
    let mut r = ModelRegistry::new();
    r.create_commodity_type(1, &vec![]).unwrap();
    for i in ids {
        r.create_model(true, true, 7, &vec![*i], &vec![], &vec![], 1, &vec![0u8; 32], 0, 0, 0).unwrap();
    }
    r
}

fn delegate() -> Option<Vec<u8>> {
    Some(vec![0xd; 32])
}

#[test]
fn redeem_reserves_within_the_ceiling() {
    let mut rec = AppIncomeCycleRecord::new(1, 3);
    let user = vec![1u8; 32];
    let r = rec.app_income_redeem_request(
        true, true, ModelIncomeStage::REWARDING, &user, 100 * U, 1000, 5000, 10, &delegate(), 1000 * U,
    );
    assert_eq!(r, Ok(101 * U));
    assert_eq!(rec.initial, 500 * U);
    assert_eq!(rec.balance, 400 * U);
    assert_eq!(rec.records[0].status, ExchangeStatus::Initiated);
    let again = rec.app_income_redeem_request(
        true, true, ModelIncomeStage::REWARDING, &user, U, 1000, 5000, 10, &delegate(), 1000 * U,
    );
    assert_eq!(again, Err(Error::AppFinancedUserExchangeAlreadyPerformed));
    let other = vec![2u8; 32];
    let too_much = rec.app_income_redeem_request(
        true, true, ModelIncomeStage::REWARDING, &other, 397 * U, 1000, 5000, 10, &None, 1000 * U,
    );
    assert_eq!(too_much, Err(Error::AppFinancedUserExchangeOverflow));
    assert_eq!(rec.balance, 400 * U);
}

#[test]
fn redeem_guards() {
    let mut rec = AppIncomeCycleRecord::new(1, 3);
    let user = vec![1u8; 32];
    let stage = ModelIncomeStage::REWARDING;
    assert_eq!(rec.app_income_redeem_request(false, true, stage, &user, U, 1000, 5000, 10, &delegate(), U * 9), Err(Error::AppIdInvalid));
    assert_eq!(rec.app_income_redeem_request(true, false, stage, &user, U, 1000, 5000, 10, &delegate(), U * 9), Err(Error::NotAppAdmin));
    assert_eq!(rec.app_income_redeem_request(true, true, ModelIncomeStage::COLLECTING, &user, U, 1000, 5000, 10, &delegate(), U * 9), Err(Error::ModelIncomeNotInRewardingStage));
    assert_eq!(rec.app_income_redeem_request(true, true, stage, &user, U, 1000, 5000, 10, &None, U * 9), Err(Error::NotFoundValidFinanceMember));
    assert_eq!(rec.app_income_redeem_request(true, true, stage, &user, U, 0, 5000, 10, &delegate(), U * 9), Err(Error::AppCycleIncomeZero));
    assert_eq!(rec.app_income_redeem_request(true, true, stage, &user, U, 1000, 0, 10, &delegate(), U * 9), Err(Error::AppCycleIncomeRateZero));
    assert_eq!(rec.app_income_redeem_request(true, true, stage, &user, U, 1000, 5000, 10, &delegate(), U), Err(Error::BalanceNotEnough));
    assert!(rec.records.is_empty());
}

#[test]
fn redeem_confirm_and_compensate() {
    let mut rec = AppIncomeCycleRecord::new(1, 3);
    let a = vec![1u8; 32];
    let b = vec![2u8; 32];
    let d = delegate().unwrap();
    let stage = ModelIncomeStage::REWARDING;
    rec.app_income_redeem_request(true, true, stage, &a, 100 * U, 1000, 5000, 10, &delegate(), 1000 * U).unwrap();
    rec.app_income_redeem_request(true, true, stage, &b, 50 * U, 1000, 5000, 10, &None, 1000 * U).unwrap();
    assert_eq!(rec.app_income_redeem_confirm(true, &b, &a, &vec![7], ModelIncomeStage::CONFIRMING, 10).err(), Some(Error::AuthIdentityNotExpectedFinanceMember));
    let pay = rec.app_income_redeem_confirm(true, &d, &a, &vec![7], ModelIncomeStage::CONFIRMING, 10).unwrap();
    assert_eq!((pay.unreserve, pay.fee, pay.burn), (101 * U, U, 100 * U));
    assert_eq!(rec.records[0].status, ExchangeStatus::Confirmed);
    assert_eq!(rec.records[0].pay_id, vec![7]);
    assert_eq!(rec.app_income_redeem_confirm(true, &d, &a, &vec![7], ModelIncomeStage::CONFIRMING, 10).err(), Some(Error::AppFinancedUserExchangeStateWrong));
    assert_eq!(rec.app_income_redeem_compensate(&b, ModelIncomeStage::CONFIRMING, 10, 100 * U), Err(Error::ModelIncomeNotInCompensatingStage));
    assert_eq!(rec.compensation_due(&b, ModelIncomeStage::COMPENSATING), Ok((d.clone(), 50 * U)));
    assert_eq!(rec.app_income_redeem_compensate(&b, ModelIncomeStage::COMPENSATING, 10, 10 * U), Ok(50 * U + U / 2));
    assert_eq!(rec.records[1].status, ExchangeStatus::CompensationFailed);
    assert_eq!(rec.initial, rec.balance + 150 * U);
}

#[test]
fn financing_proposal_quota_and_windows() {
    let now = 100;
    assert_eq!(democracy_app_financed(Some(100), now, true, true, true, false, 100_000, 1, &vec![1], 10 * U, 100 * U, 0, 50).err(), Some(Error::AppFinancedLastExchangeNotEnd));
    assert_eq!(democracy_app_financed(None, now, true, true, true, false, 200_000, 1, &vec![1], 10 * U, 100 * U, 0, 50).err(), Some(Error::AppFinancedExchangeRateTooLow));
    assert_eq!(democracy_app_financed(None, now, true, true, true, false, 100_000, 1, &vec![1], 0, 100 * U, 0, 50).err(), Some(Error::AppFinancedParamsInvalid));
    let mut p = democracy_app_financed(Some(99), now, true, true, true, false, 100_000, 1, &vec![1], 10 * U, 100 * U, 0, 50).unwrap();
    assert_eq!(p.data.exchange_end_block, 150);
    let a = vec![1u8; 32];
    let b = vec![2u8; 32];
    let d = delegate().unwrap();
    assert_eq!(p.app_financed_user_exchange_request(true, true, &a, 6 * U, 120, 10, &delegate(), 100 * U), Ok(6 * U + 6 * U / 100));
    assert_eq!(p.app_financed_user_exchange_request(true, true, &b, 5 * U, 120, 10, &None, 100 * U), Err(Error::AppFinancedUserExchangeOverflow));
    assert_eq!(p.app_financed_user_exchange_request(true, true, &b, 4 * U, 150, 10, &None, 100 * U), Err(Error::AppFinancedUserExchangeEnded));
    assert_eq!(p.app_financed_user_exchange_request(true, true, &b, 4 * U, 149, 10, &None, 100 * U), Ok(4 * U + 4 * U / 100));
    assert_eq!(p.data.exchanged, 10 * U);
    assert_eq!(p.app_financed_user_exchange_confirm(true, &d, &a, &vec![3], 176, 50, 10).err(), Some(Error::AppFinancedUserExchangeConfirmEnded));
    assert!(p.app_financed_user_exchange_confirm(true, &d, &a, &vec![3], 175, 50, 10).is_ok());
    assert_eq!(p.app_finance_redeem_compensate(&b, 175, 50, 10, 100 * U), Err(Error::AppFinancedUserExchangeConfirmNotEnd));
    assert_eq!(p.app_finance_redeem_compensate(&b, 201, 50, 10, 100 * U), Err(Error::AppFinancedUserExchangeCompensateEnded));
    assert_eq!(p.app_finance_redeem_compensate(&b, 200, 50, 10, 4 * U), Ok(4 * U + 4 * U / 100));
    assert_eq!(p.records[1].status, ExchangeStatus::Compensated);
}

#[test]
fn model_income_and_reward() {
    let mut models = registry(&[1, 2, 3, 4]);
    models.cancel_cycle_reward(7, &vec![3], 1);
    let mut c = ModelCycleIncome::new(2);
    let ids = vec![vec![1u8], vec![2u8], vec![1u8], vec![3u8], vec![9u8]];
    let incomes = vec![300u64, 100, 999, 50, 70];
    assert_eq!(c.set_model_income(true, true, ModelIncomeStage::REWARDING, 7, &ids, &incomes, &models), Err(Error::ModelIncomeNotInCollectingStage));
    assert_eq!(c.set_model_income(true, true, ModelIncomeStage::COLLECTING, 7, &ids, &incomes, &models), Ok(()));
    assert_eq!(c.total, 400);
    assert_eq!(c.app_cycle_income(7), 400);
    let r = c.request_model_reward(&models, true, ModelIncomeStage::REWARDING, 7, &vec![1], 1000 * U);
    assert_eq!(r, Ok(750 * U));
    assert_eq!(c.request_model_reward(&models, true, ModelIncomeStage::REWARDING, 7, &vec![1], 1000 * U), Err(Error::ModelCycleRewardAlreadyExisted));
    assert_eq!(c.request_model_reward(&models, true, ModelIncomeStage::REWARDING, 7, &vec![4], 1000 * U), Err(Error::ModelCycleIncomeZero));
    assert_eq!(c.request_model_reward(&models, true, ModelIncomeStage::REWARDING, 7, &vec![3], 1000 * U), Err(Error::ModelCycleRewardSlashed));
    assert_eq!(c.request_model_reward(&models, false, ModelIncomeStage::REWARDING, 7, &vec![2], 1000 * U), Err(Error::NotModelCreator));
    assert_eq!(c.request_model_reward(&models, true, ModelIncomeStage::REWARDING, 7, &vec![9], 1000 * U), Err(Error::ModelNotFoundOrDisabled));
    models.cancel_cycle_reward(7, &vec![2], 1);
    assert_eq!(c.request_model_reward(&models, true, ModelIncomeStage::REWARDING, 7, &vec![2], 1000 * U), Err(Error::ModelCycleRewardSlashed));
}

#[test]
fn model_income_overflow_records_nothing() {
    let models = registry(&[1, 2]);
    let mut c = ModelCycleIncome::new(2);
    let ids = vec![vec![1u8], vec![2u8]];
    let incomes = vec![u64::MAX, 1];
    assert_eq!(c.set_model_income(true, true, ModelIncomeStage::COLLECTING, 7, &ids, &incomes, &models), Err(Error::AddOverflow));
    assert_eq!(c.total, 0);
    assert_eq!(c.app_cycle_income(7), 0);
}

#[test]
fn delegate_candidates_hold_the_largest_deposit() {
    let members = vec![(vec![1u8], 5u128), (vec![2u8], 9), (vec![3u8], 9), (vec![4u8], 1)];
    assert_eq!(valid_finance_members(&members, 3), vec![vec![2u8], vec![3u8]]);
    assert!(valid_finance_members(&members, 10).is_empty());
    assert!(valid_finance_members(&vec![], 0).is_empty());
    let seed = [7u8; 32];
    let cands = vec![vec![2u8], vec![3u8]];
    let first = choose_finance_member(seed, &cands).unwrap();
    assert_eq!(choose_finance_member(seed, &cands).unwrap(), first);
    assert!(cands.contains(&first));
    assert_eq!(choose_finance_member(seed, &vec![]), Err(Error::NotFoundValidFinanceMember));
}

#[test]
fn disputes_escalate() {
    let c = DisputeConfig { cycle_count: 3, lv2_increase: 2, lv3_increase: 3, reward_lv1: 1, reward_lv2: 2, reward_lv3: 3 };
    let light = model_dispute(0, ModelDisputeType::NoneIntendNormal, &c);
    assert_eq!((light.count, light.cancel_cycle_reward, light.reporter_reward), (1, false, 1));
    let early = model_dispute(2, ModelDisputeType::Serious, &c);
    assert_eq!((early.count, early.cancel_cycle_reward, early.disable_and_slash), (5, false, false));
    let late = model_dispute(3, ModelDisputeType::Serious, &c);
    assert_eq!((late.count, late.cancel_cycle_reward, late.disable_and_slash, late.reporter_reward), (6, true, true, 3));
    let mid = model_dispute(3, ModelDisputeType::IntendNormal, &c);
    assert_eq!((mid.count, mid.cancel_cycle_reward, mid.disable_and_slash), (5, true, false));
}

#[test]
fn tech_fund_shares() {
    assert_eq!(compute_tech_fund_withdraw(TechFundWithdrawType::ChainDev, TechFundWithdrawLevel::LV1, 1_000_000), 112_500);
    assert_eq!(compute_tech_fund_withdraw(TechFundWithdrawType::Model, TechFundWithdrawLevel::LV5, 1_000_000_000), 160_000);
}

#[test]
fn power_to_stake_conversion() {
    assert_eq!(power_factor(100), (1, 15_000, 100));
    assert_eq!(balance_apply_power(1_000_000_000, power_factor(100)), 1_001_500_000);
    let (n, f, c) = power_factor(230_000);
    assert_eq!((n, c), (0, 16));
    assert_eq!(f, 216_216_216);
    assert_eq!(kp_staking_to_vote(0, 1000), 1000);
    assert_eq!(account_power_relative(0), 1);
    assert_eq!(account_power_relative(42), 42);
}

#[test]
fn slashing_a_delegate_deposit() {
    assert_eq!(slash_finance_member(0, 10), None);
    assert_eq!(slash_finance_member(4, 10), Some((4, 0)));
    assert_eq!(slash_finance_member(40, 10), Some((10, 30)));
}

#[test]
fn remaining_rejections() {
    let mut rec = AppIncomeCycleRecord::new(1, 3);
    let a = vec![1u8; 32];
    let d = delegate().unwrap();
    rec.app_income_redeem_request(true, true, ModelIncomeStage::REWARDING, &a, U, 1000, 5000, 10, &delegate(), 100 * U).unwrap();
    assert_eq!(rec.app_income_redeem_confirm(true, &d, &vec![9u8; 32], &vec![], ModelIncomeStage::CONFIRMING, 10).err(), Some(Error::AppFinancedUserExchangeRecordNotExist));
    assert_eq!(rec.app_income_redeem_confirm(true, &d, &a, &vec![], ModelIncomeStage::COLLECTING, 10).err(), Some(Error::ModelIncomeNotInConfirmingStage));
    assert_eq!(democracy_app_financed(None, 1, false, true, true, false, 0, 1, &vec![1], U, U, 0, 5).err(), Some(Error::AuthIdentityNotFinanceMember));
    assert_eq!(democracy_app_financed(None, 1, true, true, true, true, 0, 1, &vec![1], U, U, 0, 5).err(), Some(Error::AppAlreadyFinanced));
    assert_eq!(democracy_app_financed(None, 1, true, true, false, false, 0, 1, &vec![1], U, U, 0, 5).err(), Some(Error::AppFinancedNotInvestor));
    assert_eq!(democracy_app_financed(None, u32::MAX, true, true, true, false, 0, 1, &vec![1], U, U, 0, 5).err(), Some(Error::AddOverflow));
    let mut c = ModelCycleIncome::new(2);
    let ids: Vec<Vec<u8>> = (0..101u8).map(|i| vec![i]).collect();
    let incomes = vec![1u64; 101];
    let models = registry(&[1]);
    assert_eq!(c.set_model_income(true, true, ModelIncomeStage::COLLECTING, 7, &ids, &incomes, &models), Err(Error::ModelIncomeParamsTooLarge));
    assert_eq!(c.set_model_income(true, false, ModelIncomeStage::COLLECTING, 7, &ids, &incomes, &models), Err(Error::NotAppAdmin));
    assert_eq!(c.set_model_income(false, true, ModelIncomeStage::COLLECTING, 7, &ids, &incomes, &models), Err(Error::AuthIdentityNotFinanceMember));
    assert_eq!(c.request_model_reward(&models, true, ModelIncomeStage::REWARDING, 7, &vec![1], U), Err(Error::ModelCycleIncomeTotalZero));
    assert_eq!(c.request_model_reward(&models, true, ModelIncomeStage::REWARDING, 7, &vec![5], U), Err(Error::ModelNotFoundOrDisabled));
    assert_eq!(c.request_model_reward(&models, true, ModelIncomeStage::CONFIRMING, 7, &vec![1], U), Err(Error::ModelIncomeNotInRewardingStage));
}

#[test]
fn history_appends() {
    let mut h = pallet_kp::dispute::DisputeHistory::new();
    h.add_model_dispute_record(1, &vec![2], &vec![3], ModelDisputeType::Serious, 10);
    h.add_commodity_power_slash_record(1, &vec![3], &vec![4], 11);
    h.add_commodity_power_slash_record(1, &vec![5], &vec![6], 12);
    assert_eq!(h.disputes.len(), 1);
    assert_eq!(h.slashes.len(), 2);
    assert_eq!(h.slashes[0].cart_id, vec![4]);
    assert_eq!(h.slashes[1].block, 12);
}
