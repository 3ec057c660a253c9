//! Reasons an operation is rejected. A rejected operation changes nothing.

use vstd::prelude::*;

verus! {

/// Why an operation was rejected.
#[derive(Clone, Copy, Debug, PartialEq, Eq, Structural)]
pub enum Error {
    BalanceNotEnough,
    AddOverflow,
    DocumentAlreadyExisted,
    ProductAlreadyExisted,
    CommentAlreadyExisted,
    ModelAlreadyExisted,
    ModelTypeInvalid,
    ModelNotFoundOrDisabled,
    CommodityTypeExisted,
    ModelOverSizeLimit,
    NotAppAdmin,
    CommentNotFound,
    DocumentNotFound,
    ProductNotFound,
    AppTypeInvalid,
    ReturnRateInvalid,
    AppAdminNotMatchUser,
    AppIdInvalid,
    AppIdReachMax,
    AppAlreadyFinanced,
    AppFinancedLastExchangeNotEnd,
    AppFinancedNotInvestor,
    AppFinancedExchangeRateTooLow,
    AppFinancedParamsInvalid,
    AppFinancedUserExchangeProposalNotExist,
    AppFinancedUserExchangeAlreadyPerformed,
    AppFinancedUserExchangeRecordNotExist,
    AppFinancedUserExchangeOverflow,
    AppFinancedUserExchangeStateWrong,
    AppFinancedUserExchangeEnded,
    AppFinancedUserExchangeConfirmNotEnd,
    AppFinancedUserExchangeConfirmEnded,
    AppFinancedUserExchangeCompensateEnded,
    DocumentIdentifyAlreadyExisted,
    DocumentTryAlreadyExisted,
    LeaderBoardCreateNotPermit,
    AppRedeemTransactionIdRepeat,
    SignVerifyErrorUser,
    SignVerifyErrorAuth,
    AuthIdentityNotAppKey,
    AuthIdentityNotTechMember,
    AuthIdentityNotFinanceMember,
    AuthIdentityNotExpectedFinanceMember,
    ModelCycleIncomeAlreadyExisted,
    ModelCycleRewardAlreadyExisted,
    ModelCycleRewardSlashed,
    ModelIncomeParamsTooLarge,
    ModelIncomeNotInCollectingStage,
    ModelIncomeNotInRewardingStage,
    ModelIncomeNotInConfirmingStage,
    ModelIncomeNotInCompensatingStage,
    ModelIncomeRewardingNotEnd,
    ModelIncomeConfirmingNotEnd,
    ModelCycleIncomeTotalZero,
    ModelCycleIncomeZero,
    AppCycleIncomeZero,
    AppCycleIncomeRateZero,
    NotModelCreator,
    TechFundAmountComputeError,
    CartIdInBlackList,
    NotFoundValidFinanceMember,
}

} // verus!
