//! The vault's records, its error codes and the reasons for which it aborts.
use vstd::prelude::*;

verus! {

/// An account or contract address, held as the number by which the host
/// knows it.  Two addresses are the same exactly when their numbers are.
pub type AccountId = u64;

/// Errors that the vault returns; a call that returns one changes nothing.
#[derive(Clone, Copy, Debug, PartialEq, Eq, Structural)]
pub enum Error {
    NotInitialized,
    AlreadyInitialized,
    NegativeAmount,
    Unauthorized,
    NoStrategies,
    ContractPaused,
    DepositCapExceeded,
    WithdrawalCapExceeded,
    StaleOracleData,
    InvalidTimestamp,
    SlippageExceeded,
    ProposalNotFound,
    AlreadyApproved,
    ProposalExecuted,
    InsufficientApprovals,
    TimelockNotElapsed,
    WithdrawalNotFound,
    QueueEmpty,
    InvalidAllocationSum,
    NegativeAllocation,
    ZeroAddressStrategy,
}

/// Why a call aborts the whole transaction instead of returning an error.
/// Each operation with inputs on which the vault aborts has a `*_halt`
/// check that names the first reason, in the vault's own order.
#[derive(Clone, Copy, Debug, PartialEq, Eq, Structural)]
pub enum Halt {
    /// The stored contract version is not the one the call expects.
    VersionMismatch,
    /// The vault is paused.
    Paused,
    /// A deposit of zero or less.
    NonPositiveDeposit,
    /// A withdrawal or queued withdrawal of zero or fewer shares.
    NonPositiveShares,
    /// The deposited asset is not accepted.
    AssetNotAccepted,
    /// The depositor's shares would pass the per-user deposit cap.
    UserDepositCapExceeded,
    /// The vault's assets would pass the global deposit cap.
    GlobalDepositCapExceeded,
    /// The assets to pay out pass the per-transaction cap.
    WithdrawalCapExceeded,
    /// The account holds fewer shares than it withdraws.
    InsufficientShares,
    /// A queued withdrawal that does not exceed the queue threshold.
    BelowQueueThreshold,
    /// The account already has a withdrawal waiting in the queue.
    AlreadyQueued,
    /// A negative queue threshold.
    NegativeThreshold,
    /// A conversion of a negative amount.
    NegativeAmount,
    /// A value that the vault reads was never stored.
    NotInitialized,
    /// A migration to a version that is not newer.
    VersionNotNewer,
    /// A checked arithmetic operation overflows.
    Overflow,
}

/// A governance action that guardians propose and approve.
#[derive(Clone, Copy, Debug, PartialEq, Eq, Structural)]
pub enum ActionType {
    SetPaused(bool),
    AddStrategy(AccountId),
    Rebalance(u32),
}

/// A withdrawal waiting for the admin to process it.
#[derive(Clone, Copy, Debug, PartialEq, Eq, Structural)]
pub struct QueuedWithdrawal {
    pub user: AccountId,
    pub shares: i128,
    pub timestamp: u64,
}

/// What the vault last recorded of a strategy's health.
#[derive(Clone, Copy, Debug, PartialEq, Eq, Structural)]
pub struct StrategyHealth {
    pub last_known_balance: i128,
    pub last_check_timestamp: u64,
    pub is_healthy: bool,
}

/// A governance proposal.
#[derive(Debug)]
pub struct Proposal {
    pub id: u64,
    pub proposer: AccountId,
    pub action: ActionType,
    pub approvals: Vec<AccountId>,
    pub executed: bool,
    pub proposed_at: u64,
}

/// A proposal with its approvals as a sequence.
pub struct ProposalView {
    pub id: u64,
    pub proposer: AccountId,
    pub action: ActionType,
    pub approvals: Seq<AccountId>,
    pub executed: bool,
    pub proposed_at: u64,
}

impl View for Proposal {
    type V = ProposalView;

    open spec fn view(&self) -> ProposalView {
        ProposalView {
            id: self.id,
            proposer: self.proposer,
            action: self.action,
            approvals: self.approvals@,
            executed: self.executed,
            proposed_at: self.proposed_at,
        }
    }
}

impl Proposal {
    /// A copy of the proposal.
    pub fn duplicate(&self) -> (r: Proposal)
        ensures
            r@ == self@,
    {
        Proposal {
            id: self.id,
            proposer: self.proposer,
            action: self.action,
            approvals: self.approvals.clone(),
            executed: self.executed,
            proposed_at: self.proposed_at,
        }
    }
}

/// What a deposit minted and the vault's state after it.
#[derive(Clone, Copy, Debug, PartialEq, Eq, Structural)]
pub struct DepositReceipt {
    pub shares: i128,
    pub share_price: i128,
    pub total_assets: i128,
    pub total_shares: i128,
}

/// The vault's state after shares were queued for withdrawal.
#[derive(Clone, Copy, Debug, PartialEq, Eq, Structural)]
pub struct QueueReceipt {
    pub shares: i128,
    pub share_price: i128,
    pub total_assets: i128,
    pub total_shares: i128,
}

/// How a withdrawal went: paid out at once, or queued for the admin.
#[derive(Clone, Copy, Debug, PartialEq, Eq, Structural)]
pub enum WithdrawOutcome {
    /// `assets` are owed to the account now, from the vault's token.
    Paid { assets: i128, share_price: i128, total_assets: i128, total_shares: i128 },
    /// The shares wait in the withdrawal queue.
    Queued(QueueReceipt),
}

/// One processed queued withdrawal: what the account receives and the
/// running totals after it.
#[derive(Clone, Copy, Debug, PartialEq, Eq, Structural)]
pub struct Payout {
    pub user: AccountId,
    pub shares: i128,
    pub assets: i128,
    pub total_assets: i128,
    pub total_shares: i128,
}

/// The shares returned by a cancelled withdrawal and the vault's totals.
#[derive(Clone, Copy, Debug, PartialEq, Eq, Structural)]
pub struct CancelReceipt {
    pub shares: i128,
    pub total_assets: i128,
    pub total_shares: i128,
}

/// How far a call gets: it aborts, it returns an error, or it goes through.
#[derive(Clone, Copy, Debug, PartialEq, Eq, Structural)]
pub enum Verdict {
    Halt(Halt),
    Refuse(Error),
    Proceed,
}

/// A rebalance that governance executed: the host moves funds between the
/// vault and each strategy of `allocations` (strategy, basis points), using
/// the vault's `asset` token.
#[derive(Debug)]
pub struct RebalanceOrder {
    pub max_slippage_bps: u32,
    pub allocations: Vec<(AccountId, i128)>,
    pub total_assets: i128,
    pub asset: AccountId,
}

/// Outside work that an executed governance action leaves to the host.
#[derive(Debug)]
pub enum Effect {
    Nothing,
    Rebalance(RebalanceOrder),
}

} // verus!
