use vstd::prelude::*;

verus! {

/// The common error codes of the cell contracts.
#[derive(Debug, Clone, Copy, PartialEq, Eq, Structural)]
pub enum ErrorCode {
    InvalidTransactionStructure,
    InvalidCellData,
    CellsMustHaveSameOrderAndNumber,
    ItemMissing,
    ActionNotSupported,
    HardCodedError,
    TxFeeSpentError,
    ChangeError,
    WitnessEntityDecodingError,
    ParamsDecodingError,
    IncomeCellConsolidateConditionNotSatisfied,
    CrossChainLockError,
    CrossChainUnlockError,
    ApplyRegisterNeedWaitLonger,
    ApplyRegisterHasTimeout,
    ApplyLockMustBeUnique,
    ApplyRegisterSinceMismatch,
    ApplyRegisterRefundCapacityError,
    AccountStillCanNotBeRegister,
    AccountIsPreserved,
    CharSetIsUndefined,
    AccountSaleCellCapacityError,
    AccountSaleCellAccountIdInvalid,
    AccountSaleCellPriceTooSmall,
    AccountSaleCellDescriptionTooLarge,
    AccountSaleCellProfitRateError,
    AccountSaleCellStartedAtInvalid,
    AccountSaleCellNewOwnerError,
    AccountSaleCellRefundError,
    OfferCellLockError,
    OfferCellCapacityError,
    OfferCellFieldCanNotModified,
    OfferCellMessageTooLong,
    OfferCellNewOwnerError,
    OfferCellAccountMismatch,
    OnSaleCellNumberInvalid,
    OnSaleCellStartedAtInvalid,
    OnSaleCellPriceTooSmall,
    OnSaleCellArgsInvalid,
    DataTypeUpgradeRequired,
    ProposalSlicesCanNotBeEmpty,
    ProposalSliceMustContainMoreThanOneElement,
    ProposalCellTypeError,
    ProposalSliceIsDiscontinuity,
    ProposalSliceItemMustBeUniqueAccount,
    ProposalSliceIsNotSorted,
    ProposalSliceRelatedCellMissing,
    ProposalSliceRelatedCellNotFound,
    ProposalConfirmRefundError,
    ProposalSliceMustStartWithAccountCell,
    ProposalSliceNotEndCorrectly,
    PrevProposalItemNotFound,
    ProposalConfirmNeedWaitLonger,
    ProposalRecycleNeedWaitLonger,
    ProposalConfirmPreAccountCellExpired,
    ProposalCellNextError,
    ProposalCellAccountIdError,
    ProposalFieldCanNotBeModified,
    ProposalConfirmNewAccountCellDataError,
    ProposalConfirmNewAccountCellCapacityError,
    ProposalConfirmNewAccountWitnessError,
    ProposalConfirmInitialRecordsMismatch,
    ProposalConfirmAccountLockArgsIsInvalid,
    SMTNewRootMismatch,
    SMTWhiteListTheLockIsNotFound,
    WalletRequireWalletMakerLock,
    WalletFoundInvalidTransaction,
    WalletRequireAlwaysSuccess,
    WalletRefundError,
    WalletPermissionInvalid,
    OnSaleCellAccountCellMustOne,
    SuperLockIsRequired,
    CellMustUseSuperLock,
    ConfigIDIsUndefined,
    Encoding,
    SMTProofVerifyFailed,
    WitnessStructureError,
}

/// The error codes that concern AccountCells.
#[derive(Debug, Clone, Copy, PartialEq, Eq, Structural)]
pub enum AccountCellErrorCode {
    AccountCellStatusLocked,
    AccountCellHasExpired,
    AccountCellInExpirationGracePeriod,
    AccountCellStillCanNotRecycle,
    AccountCellIsNotExpired,
    AccountCellRenewDurationMustLongerThanYear,
    AccountCellRenewDurationBiggerThanPayed,
    AccountCellMissingPrevAccount,
    AccountCellNextUpdateError,
    AccountCellPermissionDenied,
    AccountCellThrottle,
    ApprovalExist,
    AccountHasNearGracePeriod,
    WitnessParsingError,
    ApprovalParamsPlatformLockInvalid,
    ApprovalParamsProtectedUntilInvalid,
    ApprovalParamsSealedUntilInvalid,
    ApprovalParamsDelayCountRemainInvalid,
    ApprovalParamsToLockInvalid,
    ApprovalParamsCanNotBeChanged,
    ApprovalParamsDelayCountNotEnough,
    ApprovalParamsDelayCountDecrementError,
    ApprovalParamsSealedUntilIncrementError,
    ApprovalInProtectionPeriod,
    ApprovalNotRevoked,
    ApprovalFulfillError,
    ApprovalActionUndefined,
    InvalidUpgradeTxStructure,
    InvalidUpgradeAction,
}

/// The error codes that concern SubAccountCells.
#[derive(Debug, Clone, Copy, PartialEq, Eq, Structural)]
pub enum SubAccountCellErrorCode {
    SubAccountCellCapacityError,
    SubAccountCellAccountIdError,
    SubAccountProfitError,
    SubAccountCollectProfitError,
    SubAccountCustomScriptError,
    ProfitIsEmpty,
    ProfitMustBeCollected,
    SenderCapacityOverCost,
    ExpirationYearsTooShort,
    ExpirationToleranceReached,
    WitnessVersionMismatched,
    WitnessUpgradeNeeded,
    WitnessEditKeyInvalid,
    WitnessParsingError,
    SubAccountEditLockError,
    SubAccountFieldNotEditable,
    AccountStillCanNotBeRecycled,
    ApprovalExist,
    AccountHasNearGracePeriod,
    ApprovalParamsPlatformLockInvalid,
    ApprovalParamsProtectedUntilInvalid,
    ApprovalParamsSealedUntilInvalid,
    ApprovalParamsDelayCountRemainInvalid,
    ApprovalParamsToLockInvalid,
    ApprovalParamsCanNotBeChanged,
    ApprovalParamsDelayCountNotEnough,
    ApprovalParamsDelayCountDecrementError,
    ApprovalParamsSealedUntilIncrementError,
    ApprovalInProtectionPeriod,
    AccountStatusError,
    ApprovalNotRevoked,
    ApprovalActionUndefined,
    MinimalProfitToDASNotReached,
    CustomRuleIsOff,
    AccountHasNoPrice,
    CanNotMint,
    WitnessSignMintIsRequired,
    ProofInManualSignRenewListMissing,
    AccountIsPreserved,
    ConfigRulesHasSyntaxError,
    ManualRenewProofIsInvalid,
    MultipleSignRolesIsNotAllowed,
    SubAccountRenewSignIsNotAllowed,
    SomeCellWithDasLockMayBeAbused,
    SubAccountWitnessMismatched,
    ConfigRulesHashMismatch,
    ConfigFlagInvalid,
    SignError,
    SubAccountNormalCellLockLimit,
    ProfitManagerLockIsRequired,
    AccountHasInGracePeriod,
    AccountHasExpired,
}

/// The error codes that concern PreAccountCells.
#[derive(Debug, Clone, Copy, PartialEq, Eq, Structural)]
pub enum PreAccountCellErrorCode {
    PreAccountCellIsNotTimeout,
    RefundCapacityError,
    AccountIdIsInvalid,
    ApplyHashMismatch,
    CreateAtIsInvalid,
    OwnerLockArgsIsInvalid,
    QuoteIsInvalid,
    InviterIdShouldBeEmpty,
    InviteeDiscountShouldBeEmpty,
    InviterIdIsInvalid,
    InviteeDiscountIsInvalid,
    PriceIsInvalid,
    CKBIsInsufficient,
    AccountAlreadyExistOrProofInvalid,
}

/// The error codes that concern ReverseRecordRootCells.
#[derive(Debug, Clone, Copy, PartialEq, Eq, Structural)]
pub enum ReverseRecordRootCellErrorCode {
    InitialCapacityError,
    InitialOutputsDataError,
    SignatureVerifyError,
}

/// Any error code of the cell contracts.
#[derive(Debug, Clone, Copy, PartialEq, Eq, Structural)]
pub enum DasError {
    Common(ErrorCode),
    AccountCell(AccountCellErrorCode),
    SubAccountCell(SubAccountCellErrorCode),
    PreAccountCell(PreAccountCellErrorCode),
    ReverseRecordRootCell(ReverseRecordRootCellErrorCode),
}

} // verus!
