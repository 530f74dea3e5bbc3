//! The vault's storage as mathematical values, and what each entry point
//! does to it.
//!
//! `VaultView` holds one field per storage entry of the vault.  For each
//! operation there is a spec function that says on which inputs the vault
//! aborts (`*_halt`), one for the error it returns (where it returns one),
//! and one for the storage it leaves behind.
use vstd::prelude::*;

use crate::math::{
    assets_for, assets_for_defined, fits, share_price_defined, shares_for, shares_for_defined,
};
use crate::types::{
    AccountId, ActionType, Effect, Error, Halt, ProposalView, QueuedWithdrawal, StrategyHealth,
    Verdict,
};

verus! {

/// The vault's storage.  A field of type `Option` is a storage entry whose
/// absence the vault tells apart from any stored value; the others read
/// as their default when absent.
#[verifier::ext_equal]
pub struct VaultView {
    pub admin: Option<AccountId>,
    pub asset: Option<AccountId>,
    pub oracle: Option<AccountId>,
    pub treasury: Option<AccountId>,
    pub token: Option<AccountId>,
    pub total_assets: i128,
    pub total_shares: i128,
    pub strategies: Seq<AccountId>,
    pub fee_percentage: u32,
    pub balances: Map<AccountId, i128>,
    pub paused: bool,
    pub version: u32,
    pub max_deposit_per_user: i128,
    pub max_total_assets: i128,
    pub max_withdraw_per_tx: i128,
    pub oracle_last_update: u64,
    pub max_staleness: u64,
    pub target_allocations: Option<Seq<(AccountId, i128)>>,
    pub guardians: Option<Seq<AccountId>>,
    pub threshold: u32,
    pub proposals: Option<Map<u64, ProposalView>>,
    pub next_proposal_id: u64,
    pub withdraw_queue_threshold: i128,
    pub pending_withdrawals: Seq<QueuedWithdrawal>,
    pub strategy_health: Map<AccountId, StrategyHealth>,
    pub timelock_duration: u64,
    pub accepted_assets: Seq<AccountId>,
    pub asset_balances: Map<u128, i128>,
    pub asset_totals: Map<AccountId, i128>,
}

/// The value stored under `k`, zero when nothing is.
pub open spec fn amount_at<K>(m: Map<K, i128>, k: K) -> i128 {
    if m.contains_key(k) {
        m[k]
    } else {
        0
    }
}

/// The key under which the balance of `user` in `asset` is stored:
/// `asset * 2^64 + user`, one key for each pair.
pub open spec fn pair_key(asset: AccountId, user: AccountId) -> u128 {
    (asset as int * 0x1_0000_0000_0000_0000 + user as int) as u128
}

/// Storage of a contract that has never been initialised.
pub open spec fn empty_vault() -> VaultView {
    VaultView {
        admin: None,
        asset: None,
        oracle: None,
        treasury: None,
        token: None,
        total_assets: 0,
        total_shares: 0,
        strategies: Seq::empty(),
        fee_percentage: 0,
        balances: Map::empty(),
        paused: false,
        version: 0,
        max_deposit_per_user: i128::MAX,
        max_total_assets: i128::MAX,
        max_withdraw_per_tx: i128::MAX,
        oracle_last_update: 0,
        max_staleness: 3600,
        target_allocations: None,
        guardians: None,
        threshold: 1,
        proposals: None,
        next_proposal_id: 1,
        withdraw_queue_threshold: i128::MAX,
        pending_withdrawals: Seq::empty(),
        strategy_health: Map::empty(),
        timelock_duration: 0,
        accepted_assets: Seq::empty(),
        asset_balances: Map::empty(),
        asset_totals: Map::empty(),
    }
}

impl VaultView {
    /// Share balance of `user`.
    pub open spec fn balance_of(self, user: AccountId) -> i128 {
        amount_at(self.balances, user)
    }

    /// Balance of `user` recorded for deposits of `asset`.
    pub open spec fn asset_balance_of(self, asset: AccountId, user: AccountId) -> i128 {
        amount_at(self.asset_balances, pair_key(asset, user))
    }

    /// Assets deposited in `asset`.
    pub open spec fn asset_total_of(self, asset: AccountId) -> i128 {
        amount_at(self.asset_totals, asset)
    }

    /// The guardian list, empty when none was stored.
    pub open spec fn guardian_list(self) -> Seq<AccountId> {
        match self.guardians {
            Some(g) => g,
            None => Seq::empty(),
        }
    }

    /// Shares minted now for `amount` assets.
    pub open spec fn shares_for(self, amount: int) -> int {
        shares_for(amount, self.total_shares as int, self.total_assets as int)
    }

    /// Assets paid now for `shares`.
    pub open spec fn assets_for(self, shares: int) -> int {
        assets_for(shares, self.total_shares as int, self.total_assets as int)
    }

    /// The current share price is computed without aborting.
    pub open spec fn price_defined(self) -> bool {
        share_price_defined(self.total_assets as int, self.total_shares as int)
    }

    // ── Initialisation ─────────────────────────────────────────

    /// Storage after a first initialisation.
    pub open spec fn initialized(
        self,
        admin: AccountId,
        asset: AccountId,
        oracle: AccountId,
        treasury: AccountId,
        fee_percentage: u32,
        guardians: Seq<AccountId>,
        threshold: u32,
    ) -> VaultView {
        VaultView {
            admin: Some(admin),
            asset: Some(asset),
            oracle: Some(oracle),
            strategies: Seq::empty(),
            treasury: Some(treasury),
            fee_percentage,
            token: Some(asset),
            proposals: Some(Map::empty()),
            timelock_duration: 0,
            next_proposal_id: 1,
            total_assets: 0,
            total_shares: 0,
            max_staleness: 3600,
            version: 1,
            guardians: Some(guardians),
            threshold,
            accepted_assets: seq![asset],
            asset_totals: self.asset_totals.insert(asset, 0),
            ..self
        }
    }

    // ── Deposit ────────────────────────────────────────────────

    /// Why `deposit` aborts, if it does.
    pub open spec fn deposit_halt(self, from: AccountId, asset: AccountId, amount: i128) -> Option<
        Halt,
    > {
        let shares = self.shares_for(amount as int);
        let new_balance = self.balance_of(from) + shares;
        let new_total_assets = self.total_assets + amount;
        let new_total_shares = self.total_shares + shares;
        if self.version != 1 {
            Some(Halt::VersionMismatch)
        } else if self.paused {
            Some(Halt::Paused)
        } else if amount <= 0 {
            Some(Halt::NonPositiveDeposit)
        } else if !self.accepted_assets.contains(asset) {
            Some(Halt::AssetNotAccepted)
        } else if !shares_for_defined(
            amount as int,
            self.total_shares as int,
            self.total_assets as int,
        ) {
            Some(Halt::Overflow)
        } else if !fits(self.asset_balance_of(asset, from) + shares) || !fits(new_balance) {
            Some(Halt::Overflow)
        } else if new_balance > self.max_deposit_per_user {
            Some(Halt::UserDepositCapExceeded)
        } else if !fits(new_total_assets) {
            Some(Halt::Overflow)
        } else if new_total_assets > self.max_total_assets {
            Some(Halt::GlobalDepositCapExceeded)
        } else if !fits(self.asset_total_of(asset) + amount) || !fits(new_total_shares) {
            Some(Halt::Overflow)
        } else if !share_price_defined(new_total_assets, new_total_shares) {
            Some(Halt::Overflow)
        } else {
            None
        }
    }

    /// Storage after `from` deposits `amount` of `asset`.
    pub open spec fn deposited(self, from: AccountId, asset: AccountId, amount: i128) -> VaultView {
        let shares = self.shares_for(amount as int);
        VaultView {
            asset_balances: self.asset_balances.insert(
                pair_key(asset, from),
                (self.asset_balance_of(asset, from) + shares) as i128,
            ),
            balances: self.balances.insert(from, (self.balance_of(from) + shares) as i128),
            asset_totals: self.asset_totals.insert(
                asset,
                (self.asset_total_of(asset) + amount) as i128,
            ),
            total_shares: (self.total_shares + shares) as i128,
            total_assets: (self.total_assets + amount) as i128,
            ..self
        }
    }
}

/// Index of the first queued withdrawal of `user`, if there is one.
pub open spec fn first_queued(q: Seq<QueuedWithdrawal>, user: AccountId) -> Option<int> {
    if exists|i: int| 0 <= i < q.len() && q[i].user == user && forall|j: int|
        0 <= j < i ==> q[j].user != user {
        Some(
            choose|i: int|
                0 <= i < q.len() && q[i].user == user && forall|j: int|
                    0 <= j < i ==> q[j].user != user,
        )
    } else {
        None
    }
}

/// Shares of the first `k` queued withdrawals.
pub open spec fn shares_paid(q: Seq<QueuedWithdrawal>, k: int) -> int
    decreases k,
{
    if k <= 0 {
        0
    } else {
        shares_paid(q, k - 1) + q[k - 1].shares
    }
}

/// Assets paid for the first `k` queued withdrawals, each converted at the
/// totals that stood before processing began.
pub open spec fn assets_paid(q: Seq<QueuedWithdrawal>, k: int, total_shares: int, total_assets: int) -> int
    decreases k,
{
    if k <= 0 {
        0
    } else {
        assets_paid(q, k - 1, total_shares, total_assets) + assets_for(
            q[k - 1].shares as int,
            total_shares,
            total_assets,
        )
    }
}

/// Processing the first `k` queued withdrawals converts each and keeps the
/// running totals within `i128`.
pub open spec fn process_defined(q: Seq<QueuedWithdrawal>, k: int, total_shares: int, total_assets: int) -> bool
    decreases k,
{
    if k <= 0 {
        true
    } else {
        &&& process_defined(q, k - 1, total_shares, total_assets)
        &&& assets_for_defined(q[k - 1].shares as int, total_shares, total_assets)
        &&& fits(total_shares - shares_paid(q, k))
        &&& fits(total_assets - assets_paid(q, k, total_shares, total_assets))
    }
}

/// Number of queued withdrawals processed with a limit of `limit`.
pub open spec fn processed_count(len: int, limit: u32) -> int {
    if limit < len {
        limit as int
    } else {
        len
    }
}

impl VaultView {
    // ── Withdrawal queue ───────────────────────────────────────

    /// Why `queue_withdraw` aborts, if it does.
    pub open spec fn queue_withdraw_halt(self, from: AccountId, shares: i128) -> Option<Halt> {
        if self.paused {
            Some(Halt::Paused)
        } else if shares <= 0 {
            Some(Halt::NonPositiveShares)
        } else if self.balance_of(from) < shares {
            Some(Halt::InsufficientShares)
        } else if !assets_for_defined(
            shares as int,
            self.total_shares as int,
            self.total_assets as int,
        ) {
            Some(Halt::Overflow)
        } else if self.assets_for(shares as int) <= self.withdraw_queue_threshold {
            Some(Halt::BelowQueueThreshold)
        } else if !self.price_defined() {
            Some(Halt::Overflow)
        } else if first_queued(self.pending_withdrawals, from) is Some {
            Some(Halt::AlreadyQueued)
        } else {
            None
        }
    }

    /// Storage after `from` queues `shares` for withdrawal at time `now`.
    pub open spec fn queued(self, from: AccountId, shares: i128, now: u64) -> VaultView {
        VaultView {
            balances: self.balances.insert(from, (self.balance_of(from) - shares) as i128),
            pending_withdrawals: self.pending_withdrawals.push(
                QueuedWithdrawal { user: from, shares, timestamp: now },
            ),
            ..self
        }
    }

    /// The withdrawal of `shares` goes to the queue rather than being paid.
    pub open spec fn withdraw_is_queued(self, shares: i128) -> bool {
        self.assets_for(shares as int) > self.withdraw_queue_threshold
    }

    /// Why `withdraw` aborts, if it does.
    pub open spec fn withdraw_halt(self, from: AccountId, shares: i128) -> Option<Halt> {
        let assets = self.assets_for(shares as int);
        let new_total_shares = self.total_shares - shares;
        let new_total_assets = self.total_assets - assets;
        if self.version != 1 {
            Some(Halt::VersionMismatch)
        } else if self.paused {
            Some(Halt::Paused)
        } else if shares <= 0 {
            Some(Halt::NonPositiveShares)
        } else if self.balance_of(from) < shares {
            Some(Halt::InsufficientShares)
        } else if !assets_for_defined(
            shares as int,
            self.total_shares as int,
            self.total_assets as int,
        ) {
            Some(Halt::Overflow)
        } else if assets > self.max_withdraw_per_tx {
            Some(Halt::WithdrawalCapExceeded)
        } else if self.withdraw_is_queued(shares) {
            self.queue_withdraw_halt(from, shares)
        } else if !fits(new_total_shares) || !fits(new_total_assets) {
            Some(Halt::Overflow)
        } else if !share_price_defined(new_total_assets, new_total_shares) {
            Some(Halt::Overflow)
        } else if self.token is None {
            Some(Halt::NotInitialized)
        } else {
            None
        }
    }

    /// Storage after `from` burns `shares` and is paid at once.
    pub open spec fn withdrawn(self, from: AccountId, shares: i128) -> VaultView {
        VaultView {
            total_shares: (self.total_shares - shares) as i128,
            total_assets: (self.total_assets - self.assets_for(shares as int)) as i128,
            balances: self.balances.insert(from, (self.balance_of(from) - shares) as i128),
            ..self
        }
    }

    /// Why `process_queued_withdrawals` aborts, if it does.
    pub open spec fn process_halt(self, limit: u32) -> Option<Halt> {
        let q = self.pending_withdrawals;
        if self.admin is None || self.token is None {
            Some(Halt::NotInitialized)
        } else if !process_defined(
            q,
            processed_count(q.len() as int, limit),
            self.total_shares as int,
            self.total_assets as int,
        ) {
            Some(Halt::Overflow)
        } else {
            None
        }
    }

    /// Storage after the first `limit` queued withdrawals are paid.
    pub open spec fn processed(self, limit: u32) -> VaultView {
        let q = self.pending_withdrawals;
        let k = processed_count(q.len() as int, limit);
        VaultView {
            total_shares: (self.total_shares - shares_paid(q, k)) as i128,
            total_assets: (self.total_assets - assets_paid(
                q,
                k,
                self.total_shares as int,
                self.total_assets as int,
            )) as i128,
            pending_withdrawals: q.skip(k),
            ..self
        }
    }

    /// Why `cancel_queued_withdrawal` aborts, if it does.
    pub open spec fn cancel_halt(self, from: AccountId) -> Option<Halt> {
        match first_queued(self.pending_withdrawals, from) {
            Some(i) => if fits(self.balance_of(from) + self.pending_withdrawals[i].shares) {
                None
            } else {
                Some(Halt::Overflow)
            },
            None => None,
        }
    }

    /// Storage after the first queued withdrawal of `from`, at index `i`, is
    /// cancelled.
    pub open spec fn cancelled(self, from: AccountId, i: int) -> VaultView {
        VaultView {
            pending_withdrawals: self.pending_withdrawals.remove(i),
            balances: self.balances.insert(
                from,
                (self.balance_of(from) + self.pending_withdrawals[i].shares) as i128,
            ),
            ..self
        }
    }
}

/// The first queued withdrawal of `user` is the one at `i`.
pub proof fn lemma_first_queued_at(q: Seq<QueuedWithdrawal>, user: AccountId, i: int)
    requires
        0 <= i < q.len(),
        q[i].user == user,
        forall|j: int| 0 <= j < i ==> q[j].user != user,
    ensures
        first_queued(q, user) == Some(i),
{
    let c = choose|c: int|
        0 <= c < q.len() && q[c].user == user && forall|j: int| 0 <= j < c ==> q[j].user != user;
    assert(0 <= c < q.len() && q[c].user == user && forall|j: int|
        0 <= j < c ==> q[j].user != user);
    if c < i {
        assert(q[c].user != user);
    } else if c > i {
        assert(q[i].user != user);
    }
}

/// Without a first queued entry of `user`, the first `k` entries are all
/// someone else's.
pub proof fn lemma_first_queued_none(q: Seq<QueuedWithdrawal>, user: AccountId, k: int)
    requires
        first_queued(q, user) is None,
        0 <= k <= q.len(),
    ensures
        forall|j: int| 0 <= j < k ==> q[j].user != user,
    decreases k,
{
    if k > 0 {
        lemma_first_queued_none(q, user, k - 1);
        if q[k - 1].user == user {
            lemma_first_queued_at(q, user, k - 1);
        }
    }
}

/// Processing a prefix is defined when processing a longer prefix is.
pub proof fn lemma_process_defined_prefix(
    q: Seq<QueuedWithdrawal>,
    k: int,
    j: int,
    total_shares: int,
    total_assets: int,
)
    requires
        process_defined(q, k, total_shares, total_assets),
        0 <= j <= k,
    ensures
        process_defined(q, j, total_shares, total_assets),
    decreases k,
{
    if j < k {
        lemma_process_defined_prefix(q, k - 1, j, total_shares, total_assets);
    }
}

/// Index of the first occurrence of `x` in `s`, if there is one.
pub open spec fn first_index(s: Seq<AccountId>, x: AccountId) -> Option<int> {
    if exists|i: int| 0 <= i < s.len() && s[i] == x && forall|j: int| 0 <= j < i ==> s[j] != x {
        Some(choose|i: int| 0 <= i < s.len() && s[i] == x && forall|j: int| 0 <= j < i ==> s[j] != x)
    } else {
        None
    }
}

/// The first occurrence of `x` in `s` is at `i`.
pub proof fn lemma_first_index_at(s: Seq<AccountId>, x: AccountId, i: int)
    requires
        0 <= i < s.len(),
        s[i] == x,
        forall|j: int| 0 <= j < i ==> s[j] != x,
    ensures
        first_index(s, x) == Some(i),
{
    let c = choose|c: int| 0 <= c < s.len() && s[c] == x && forall|j: int| 0 <= j < c ==> s[j] != x;
    assert(0 <= c < s.len() && s[c] == x && forall|j: int| 0 <= j < c ==> s[j] != x);
    if c < i {
        assert(s[c] != x);
    } else if c > i {
        assert(s[i] != x);
    }
}

/// `x` does not occur in `s`, so it has no first index.
pub proof fn lemma_first_index_none(s: Seq<AccountId>, x: AccountId)
    requires
        !s.contains(x),
    ensures
        first_index(s, x) is None,
{
    if first_index(s, x) is Some {
        let c = first_index(s, x)->0;
        assert(s[c] == x);
    }
}

/// `a + b` on `u64`, stopping at the largest value.
pub open spec fn saturating_add_u64(a: u64, b: u64) -> u64 {
    if a + b > u64::MAX {
        u64::MAX
    } else {
        (a + b) as u64
    }
}

/// `a - b` on `u64`, stopping at zero.
pub open spec fn saturating_sub_u64(a: u64, b: u64) -> u64 {
    if a < b {
        0
    } else {
        (a - b) as u64
    }
}

impl VaultView {
    // ── Governance ─────────────────────────────────────────────

    /// The timelock of a proposal made at `proposed_at` has run out at `now`.
    pub open spec fn timelock_elapsed(self, proposed_at: u64, now: u64) -> bool {
        self.timelock_duration == 0 || saturating_sub_u64(now, proposed_at)
            >= self.timelock_duration
    }

    /// The oracle's allocations are older than the allowed staleness at `now`.
    pub open spec fn oracle_stale(self, now: u64) -> bool {
        now > saturating_add_u64(self.oracle_last_update, self.max_staleness)
    }

    /// How far registering `strategy` gets.
    pub open spec fn add_strategy_verdict(self, strategy: AccountId) -> Verdict {
        if self.version != 1 {
            Verdict::Halt(Halt::VersionMismatch)
        } else if self.admin is None {
            Verdict::Halt(Halt::NotInitialized)
        } else if self.strategies.contains(strategy) {
            Verdict::Refuse(Error::AlreadyInitialized)
        } else {
            Verdict::Proceed
        }
    }

    /// How far starting a rebalance at `now` gets.
    pub open spec fn rebalance_verdict(self, now: u64) -> Verdict {
        if self.version != 1 {
            Verdict::Halt(Halt::VersionMismatch)
        } else if self.admin is None || self.oracle is None {
            Verdict::Halt(Halt::NotInitialized)
        } else if self.oracle_stale(now) {
            Verdict::Refuse(Error::StaleOracleData)
        } else if self.target_allocations is None {
            Verdict::Refuse(Error::NotInitialized)
        } else if self.asset is None {
            Verdict::Halt(Halt::NotInitialized)
        } else {
            Verdict::Proceed
        }
    }

    /// How far executing `action`, proposed at `proposed_at`, gets at `now`.
    pub open spec fn execute_verdict(self, action: ActionType, proposed_at: u64, now: u64) -> Verdict {
        if !self.timelock_elapsed(proposed_at, now) {
            Verdict::Refuse(Error::TimelockNotElapsed)
        } else {
            match action {
                ActionType::SetPaused(_) => Verdict::Proceed,
                ActionType::AddStrategy(s) => self.add_strategy_verdict(s),
                ActionType::Rebalance(_) => self.rebalance_verdict(now),
            }
        }
    }

    /// Storage after `strategy` is registered at `now`, healthy.
    pub open spec fn strategy_added(self, strategy: AccountId, now: u64) -> VaultView {
        VaultView {
            strategies: self.strategies.push(strategy),
            strategy_health: self.strategy_health.insert(
                strategy,
                StrategyHealth { last_known_balance: 0, last_check_timestamp: now, is_healthy: true },
            ),
            ..self
        }
    }

    /// Storage after `action` is executed at `now` (a rebalance moves funds
    /// outside the vault's storage only).
    pub open spec fn action_executed(self, action: ActionType, now: u64) -> VaultView {
        match action {
            ActionType::SetPaused(state) => VaultView { paused: state, ..self },
            ActionType::AddStrategy(s) => self.strategy_added(s, now),
            ActionType::Rebalance(_) => self,
        }
    }

    /// `effect` is the outside work that executing `action` leaves: the
    /// rebalance order for a rebalance, nothing otherwise.
    pub open spec fn effect_of(self, action: ActionType, effect: Effect) -> bool {
        match action {
            ActionType::Rebalance(max) => match effect {
                Effect::Rebalance(order) => {
                    &&& order.max_slippage_bps == max
                    &&& Some(order.allocations@) == self.target_allocations
                    &&& order.total_assets == self.total_assets
                    &&& Some(order.asset) == self.asset
                },
                Effect::Nothing => false,
            },
            _ => effect is Nothing,
        }
    }

    /// Executing `action` is done once the vault's storage has changed.  A
    /// rebalance is done only once the funds have moved and every strategy
    /// passed its slippage check, so its proposal stays pending until
    /// [`VaultView::rebalance_completed`].
    pub open spec fn settles_at_once(action: ActionType) -> bool {
        !(action is Rebalance)
    }

    /// Storage after the rebalance of pending proposal `id` passed its
    /// slippage check: the proposal is executed.
    pub open spec fn rebalance_completed(self, id: u64) -> VaultView {
        VaultView {
            proposals: Some(
                self.proposal_map().insert(id, ProposalView { executed: true, ..self.proposal_map()[id] }),
            ),
            ..self
        }
    }

    /// The stored proposals, none when the map was never stored.
    pub open spec fn proposal_map(self) -> Map<u64, ProposalView> {
        match self.proposals {
            Some(m) => m,
            None => Map::empty(),
        }
    }

    /// A proposal made with `threshold` at most one is executed at once.
    pub open spec fn propose_executes(self, action: ActionType, now: u64) -> bool {
        self.threshold <= 1 && self.execute_verdict(action, now, now) is Proceed
    }

    /// How far `proposer` proposing `action` at `now` gets.
    pub open spec fn propose_verdict(self, proposer: AccountId, action: ActionType, now: u64) -> Verdict {
        if self.guardians is None {
            Verdict::Halt(Halt::NotInitialized)
        } else if !self.guardian_list().contains(proposer) {
            Verdict::Refuse(Error::Unauthorized)
        } else if self.next_proposal_id == u64::MAX {
            Verdict::Halt(Halt::Overflow)
        } else if self.threshold <= 1 {
            match self.execute_verdict(action, now, now) {
                Verdict::Halt(h) => Verdict::Halt(h),
                Verdict::Refuse(e) => if e == Error::TimelockNotElapsed {
                    Verdict::Proceed
                } else {
                    Verdict::Refuse(e)
                },
                Verdict::Proceed => Verdict::Proceed,
            }
        } else {
            Verdict::Proceed
        }
    }

    /// Storage after `proposer` proposes `action` at `now`.
    pub open spec fn proposed(self, proposer: AccountId, action: ActionType, now: u64) -> VaultView {
        let id = self.next_proposal_id;
        let executes = self.propose_executes(action, now);
        let base = if executes {
            self.action_executed(action, now)
        } else {
            self
        };
        VaultView {
            next_proposal_id: (id + 1) as u64,
            proposals: Some(
                self.proposal_map().insert(
                    id,
                    ProposalView {
                        id,
                        proposer,
                        action,
                        approvals: seq![proposer],
                        executed: executes && VaultView::settles_at_once(action),
                        proposed_at: now,
                    },
                ),
            ),
            ..base
        }
    }

    /// The approvals of proposal `id` reach the threshold with one more.
    pub open spec fn approval_completes(self, id: u64) -> bool {
        self.proposal_map()[id].approvals.len() + 1 >= self.threshold
    }

    /// How far `guardian` approving proposal `id` at `now` gets.
    pub open spec fn approve_verdict(self, guardian: AccountId, id: u64, now: u64) -> Verdict {
        if self.guardians is None {
            Verdict::Refuse(Error::NotInitialized)
        } else if !self.guardian_list().contains(guardian) {
            Verdict::Refuse(Error::Unauthorized)
        } else if self.proposals is None {
            Verdict::Refuse(Error::NotInitialized)
        } else if !self.proposal_map().contains_key(id) {
            Verdict::Refuse(Error::ProposalNotFound)
        } else if self.proposal_map()[id].executed {
            Verdict::Refuse(Error::ProposalExecuted)
        } else if self.proposal_map()[id].approvals.contains(guardian) {
            Verdict::Refuse(Error::AlreadyApproved)
        } else if self.approval_completes(id) {
            let p = self.proposal_map()[id];
            self.execute_verdict(p.action, p.proposed_at, now)
        } else {
            Verdict::Proceed
        }
    }

    /// Storage after `guardian` approves proposal `id` at `now`.
    pub open spec fn approved(self, guardian: AccountId, id: u64, now: u64) -> VaultView {
        let p = self.proposal_map()[id];
        let executes = self.approval_completes(id);
        let base = if executes {
            self.action_executed(p.action, now)
        } else {
            self
        };
        VaultView {
            proposals: Some(
                self.proposal_map().insert(
                    id,
                    ProposalView {
                        approvals: p.approvals.push(guardian),
                        executed: executes && VaultView::settles_at_once(p.action),
                        ..p
                    },
                ),
            ),
            ..base
        }
    }

    /// How far adding or removing a guardian, or any other admin-only
    /// setting, gets: it aborts when no admin was stored.
    pub open spec fn admin_halt(self) -> Option<Halt> {
        if self.admin is None {
            Some(Halt::NotInitialized)
        } else {
            None
        }
    }

    /// Storage after `guardian` is added (nothing changes if it is a guardian).
    pub open spec fn guardian_added(self, guardian: AccountId) -> VaultView {
        if self.guardian_list().contains(guardian) {
            self
        } else {
            VaultView { guardians: Some(self.guardian_list().push(guardian)), ..self }
        }
    }

    /// Storage after the first occurrence of `guardian`, at `i`, is removed.
    pub open spec fn guardian_removed(self, i: int) -> VaultView {
        VaultView { guardians: Some(self.guardian_list().remove(i)), ..self }
    }

    /// `threshold` is refused: zero, or more than there are guardians.
    pub open spec fn threshold_refused(self, threshold: u32) -> bool {
        threshold == 0 || threshold > self.guardian_list().len()
    }
}

} // verus!
