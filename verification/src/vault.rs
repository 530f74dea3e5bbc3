//! The vault's storage and its entry points.
use std::collections::HashMap;
use vstd::prelude::*;

use crate::allocation::{check_rebalance, rebalance_outcome};
use crate::math::{
    assets_for, assets_for_defined, checked_convert_to_assets, checked_convert_to_shares,
    checked_share_price, convert_to_assets, convert_to_shares, fits, share_price, share_price_of,
    shares_for,
};
use crate::model::{
    amount_at, assets_paid, empty_vault, first_index, first_queued, lemma_first_index_at,
    lemma_first_index_none, lemma_first_queued_at, lemma_process_defined_prefix, pair_key,
    process_defined, processed_count, shares_paid, VaultView,
};
use crate::types::{
    AccountId, ActionType, CancelReceipt, DepositReceipt, Effect, Error, Halt, Payout, Proposal,
    ProposalView, QueueReceipt, QueuedWithdrawal, RebalanceOrder, StrategyHealth, Verdict,
    WithdrawOutcome,
};

verus! {

broadcast use vstd::std_specs::hash::group_hash_axioms;

/// The vault's whole storage; see [`VaultView`] for what each field means.
pub struct VolatilityShield {
    pub admin: Option<AccountId>,
    pub asset: Option<AccountId>,
    pub oracle: Option<AccountId>,
    pub treasury: Option<AccountId>,
    pub token: Option<AccountId>,
    pub total_assets: i128,
    pub total_shares: i128,
    pub strategies: Vec<AccountId>,
    pub fee_percentage: u32,
    pub balances: HashMap<AccountId, i128>,
    pub paused: bool,
    pub version: u32,
    pub max_deposit_per_user: i128,
    pub max_total_assets: i128,
    pub max_withdraw_per_tx: i128,
    pub oracle_last_update: u64,
    pub max_staleness: u64,
    pub target_allocations: Option<Vec<(AccountId, i128)>>,
    pub guardians: Option<Vec<AccountId>>,
    pub threshold: u32,
    pub proposals: Option<HashMap<u64, Proposal>>,
    pub next_proposal_id: u64,
    pub withdraw_queue_threshold: i128,
    pub pending_withdrawals: Vec<QueuedWithdrawal>,
    pub strategy_health: HashMap<AccountId, StrategyHealth>,
    pub timelock_duration: u64,
    pub accepted_assets: Vec<AccountId>,
    pub asset_balances: HashMap<u128, i128>,
    pub asset_totals: HashMap<AccountId, i128>,
}

/// The proposals of a stored proposal map, each as a [`ProposalView`].
pub open spec fn proposals_view(m: Map<u64, Proposal>) -> Map<u64, ProposalView> {
    m.map_values(|p: Proposal| p@)
}

impl View for VolatilityShield {
    type V = VaultView;

    open spec fn view(&self) -> VaultView {
        VaultView {
            admin: self.admin,
            asset: self.asset,
            oracle: self.oracle,
            treasury: self.treasury,
            token: self.token,
            total_assets: self.total_assets,
            total_shares: self.total_shares,
            strategies: self.strategies@,
            fee_percentage: self.fee_percentage,
            balances: self.balances@,
            paused: self.paused,
            version: self.version,
            max_deposit_per_user: self.max_deposit_per_user,
            max_total_assets: self.max_total_assets,
            max_withdraw_per_tx: self.max_withdraw_per_tx,
            oracle_last_update: self.oracle_last_update,
            max_staleness: self.max_staleness,
            target_allocations: match &self.target_allocations {
                Some(v) => Some(v@),
                None => None,
            },
            guardians: match &self.guardians {
                Some(v) => Some(v@),
                None => None,
            },
            threshold: self.threshold,
            proposals: match &self.proposals {
                Some(m) => Some(proposals_view(m@)),
                None => None,
            },
            next_proposal_id: self.next_proposal_id,
            withdraw_queue_threshold: self.withdraw_queue_threshold,
            pending_withdrawals: self.pending_withdrawals@,
            strategy_health: self.strategy_health@,
            timelock_duration: self.timelock_duration,
            accepted_assets: self.accepted_assets@,
            asset_balances: self.asset_balances@,
            asset_totals: self.asset_totals@,
        }
    }
}

/// The amount stored under `k`, zero when nothing is.
pub(crate) fn read_amount(m: &HashMap<AccountId, i128>, k: AccountId) -> (r: i128)
    ensures
        r == amount_at(m@, k),
{
    match m.get(&k) {
        Some(v) => *v,
        None => 0,
    }
}

/// The amount stored under the pair key `k`, zero when nothing is.
pub(crate) fn read_pair_amount(m: &HashMap<u128, i128>, k: u128) -> (r: i128)
    ensures
        r == amount_at(m@, k),
{
    match m.get(&k) {
        Some(v) => *v,
        None => 0,
    }
}

/// The key of the balance of `user` in `asset`.
pub(crate) fn balance_key(asset: AccountId, user: AccountId) -> (r: u128)
    ensures
        r == pair_key(asset, user),
{
    let a = asset as u128;
    let u = user as u128;
    assert(a * 0x1_0000_0000_0000_0000 + u <= u128::MAX) by (nonlinear_arith)
        requires
            a <= u64::MAX,
            u <= u64::MAX,
    ;
    a * 0x1_0000_0000_0000_0000 + u
}

/// `x` occurs in `v`.
pub fn contains_account(v: &Vec<AccountId>, x: AccountId) -> (r: bool)
    ensures
        r == v@.contains(x),
{
    let mut i: usize = 0;
    while i < v.len()
        invariant
            i <= v.len(),
            forall|j: int| 0 <= j < i ==> v@[j] != x,
        decreases v.len() - i,
    {
        if v[i] == x {
            return true;
        }
        i = i + 1;
    }
    false
}

impl VolatilityShield {
    /// Storage of a contract that has never been initialised.
    pub fn new() -> (r: VolatilityShield)
        ensures
            r@ == empty_vault(),
    {
        VolatilityShield {
            admin: None,
            asset: None,
            oracle: None,
            treasury: None,
            token: None,
            total_assets: 0,
            total_shares: 0,
            strategies: Vec::new(),
            fee_percentage: 0,
            balances: HashMap::new(),
            paused: false,
            version: 0,
            max_deposit_per_user: i128::MAX,
            max_total_assets: i128::MAX,
            max_withdraw_per_tx: i128::MAX,
            oracle_last_update: 0,
            max_staleness: 3600,
            target_allocations: None,
            guardians: None,
            threshold: 1,
            proposals: None,
            next_proposal_id: 1,
            withdraw_queue_threshold: i128::MAX,
            pending_withdrawals: Vec::new(),
            strategy_health: HashMap::new(),
            timelock_duration: 0,
            accepted_assets: Vec::new(),
            asset_balances: HashMap::new(),
            asset_totals: HashMap::new(),
        }
    }

    /// Initialise the vault, once.
    pub fn init(
        &mut self,
        admin: AccountId,
        asset: AccountId,
        oracle: AccountId,
        treasury: AccountId,
        fee_percentage: u32,
        guardians: Vec<AccountId>,
        threshold: u32,
    ) -> (r: Result<(), Error>)
        ensures
            old(self).admin is Some ==> r == Err::<(), Error>(Error::AlreadyInitialized)
                && final(self)@ == old(self)@,
            old(self).admin is None ==> r is Ok && final(self)@ == old(self)@.initialized(
                admin,
                asset,
                oracle,
                treasury,
                fee_percentage,
                guardians@,
                threshold,
            ),
    {
        if self.admin.is_some() {
            return Err(Error::AlreadyInitialized);
        }
        self.admin = Some(admin);
        self.asset = Some(asset);
        self.oracle = Some(oracle);
        self.strategies = Vec::new();
        self.treasury = Some(treasury);
        self.fee_percentage = fee_percentage;
        self.token = Some(asset);
        self.proposals = Some(HashMap::new());
        self.timelock_duration = 0;
        self.next_proposal_id = 1;
        self.total_assets = 0;
        self.total_shares = 0;
        self.max_staleness = 3600;
        self.version = 1;
        self.guardians = Some(guardians);
        self.threshold = threshold;
        let mut accepted = Vec::new();
        accepted.push(asset);
        self.accepted_assets = accepted;
        self.asset_totals.insert(asset, 0);
        proof {
            assert(proposals_view(Map::<u64, Proposal>::empty()) =~= Map::empty());
        }
        Ok(())
    }
    /// Why `deposit` would abort, if it would (see [`VaultView::deposit_halt`]).
    pub fn deposit_halt(&self, from: AccountId, asset: AccountId, amount: i128) -> (r: Option<Halt>)
        ensures
            r == self@.deposit_halt(from, asset, amount),
    {
        if self.version != 1 {
            return Some(Halt::VersionMismatch);
        }
        if self.paused {
            return Some(Halt::Paused);
        }
        if amount <= 0 {
            return Some(Halt::NonPositiveDeposit);
        }
        if !contains_account(&self.accepted_assets, asset) {
            return Some(Halt::AssetNotAccepted);
        }
        let shares = match checked_convert_to_shares(amount, self.total_shares, self.total_assets) {
            Some(s) => s,
            None => return Some(Halt::Overflow),
        };
        let asset_balance = read_pair_amount(&self.asset_balances, balance_key(asset, from));
        if asset_balance.checked_add(shares).is_none() {
            return Some(Halt::Overflow);
        }
        let new_balance = match read_amount(&self.balances, from).checked_add(shares) {
            Some(b) => b,
            None => return Some(Halt::Overflow),
        };
        if new_balance > self.max_deposit_per_user {
            return Some(Halt::UserDepositCapExceeded);
        }
        let new_total_assets = match self.total_assets.checked_add(amount) {
            Some(t) => t,
            None => return Some(Halt::Overflow),
        };
        if new_total_assets > self.max_total_assets {
            return Some(Halt::GlobalDepositCapExceeded);
        }
        if read_amount(&self.asset_totals, asset).checked_add(amount).is_none() {
            return Some(Halt::Overflow);
        }
        let new_total_shares = match self.total_shares.checked_add(shares) {
            Some(t) => t,
            None => return Some(Halt::Overflow),
        };
        if checked_share_price(new_total_assets, new_total_shares).is_none() {
            return Some(Halt::Overflow);
        }
        None
    }

    /// Deposit `amount` of `asset` for `from`, minting shares at the current
    /// rate; the host has moved the tokens to the vault.
    pub fn deposit(&mut self, from: AccountId, asset: AccountId, amount: i128) -> (r: DepositReceipt)
        requires
            old(self)@.deposit_halt(from, asset, amount) is None,
        ensures
            final(self)@ == old(self)@.deposited(from, asset, amount),
            r.shares == old(self)@.shares_for(amount as int),
            r.total_assets == final(self).total_assets,
            r.total_shares == final(self).total_shares,
            r.share_price == share_price_of(
                final(self).total_assets as int,
                final(self).total_shares as int,
            ),
    {
        let shares = convert_to_shares(amount, self.total_shares, self.total_assets);
        let key = balance_key(asset, from);
        let new_asset_balance = read_pair_amount(&self.asset_balances, key) + shares;
        let new_balance = read_amount(&self.balances, from) + shares;
        let new_asset_total = read_amount(&self.asset_totals, asset) + amount;
        self.asset_balances.insert(key, new_asset_balance);
        self.balances.insert(from, new_balance);
        self.asset_totals.insert(asset, new_asset_total);
        self.total_shares = self.total_shares + shares;
        self.total_assets = self.total_assets + amount;
        let price = share_price(self.total_assets, self.total_shares);
        DepositReceipt {
            shares,
            share_price: price,
            total_assets: self.total_assets,
            total_shares: self.total_shares,
        }
    }
    /// Why `queue_withdraw` would abort, if it would.
    pub fn queue_withdraw_halt(&self, from: AccountId, shares: i128) -> (r: Option<Halt>)
        ensures
            r == self@.queue_withdraw_halt(from, shares),
    {
        if self.paused {
            return Some(Halt::Paused);
        }
        if shares <= 0 {
            return Some(Halt::NonPositiveShares);
        }
        if read_amount(&self.balances, from) < shares {
            return Some(Halt::InsufficientShares);
        }
        let assets = match checked_convert_to_assets(shares, self.total_shares, self.total_assets) {
            Some(a) => a,
            None => return Some(Halt::Overflow),
        };
        if assets <= self.withdraw_queue_threshold {
            return Some(Halt::BelowQueueThreshold);
        }
        if checked_share_price(self.total_assets, self.total_shares).is_none() {
            return Some(Halt::Overflow);
        }
        if self.has_pending_withdrawal(from) {
            return Some(Halt::AlreadyQueued);
        }
        None
    }

    /// `user` has a withdrawal waiting in the queue.
    pub fn has_pending_withdrawal(&self, user: AccountId) -> (r: bool)
        ensures
            r == first_queued(self@.pending_withdrawals, user) is Some,
    {
        let len = self.pending_withdrawals.len();
        let mut i: usize = 0;
        while i < len
            invariant
                len == self.pending_withdrawals.len(),
                i <= len,
                forall|j: int| 0 <= j < i ==> self.pending_withdrawals@[j].user != user,
            decreases len - i,
        {
            if self.pending_withdrawals[i].user == user {
                proof {
                    lemma_first_queued_at(self.pending_withdrawals@, user, i as int);
                }
                return true;
            }
            i = i + 1;
        }
        proof {
            if first_queued(self.pending_withdrawals@, user) is Some {
                let c = first_queued(self.pending_withdrawals@, user)->0;
                assert(self.pending_withdrawals@[c].user == user);
            }
        }
        false
    }

    /// Queue a withdrawal of `shares` by `from` at time `now`; the shares
    /// leave the account at once and wait in the queue.
    pub fn queue_withdraw(&mut self, from: AccountId, shares: i128, now: u64) -> (r: QueueReceipt)
        requires
            old(self)@.queue_withdraw_halt(from, shares) is None,
        ensures
            final(self)@ == old(self)@.queued(from, shares, now),
            r == (QueueReceipt {
                shares,
                share_price: share_price_of(
                    old(self).total_assets as int,
                    old(self).total_shares as int,
                ) as i128,
                total_assets: old(self).total_assets,
                total_shares: old(self).total_shares,
            }),
    {
        let balance = read_amount(&self.balances, from);
        self.balances.insert(from, balance - shares);
        self.pending_withdrawals.push(QueuedWithdrawal { user: from, shares, timestamp: now });
        let price = share_price(self.total_assets, self.total_shares);
        QueueReceipt {
            shares,
            share_price: price,
            total_assets: self.total_assets,
            total_shares: self.total_shares,
        }
    }

    /// Why `withdraw` would abort, if it would.
    pub fn withdraw_halt(&self, from: AccountId, shares: i128) -> (r: Option<Halt>)
        ensures
            r == self@.withdraw_halt(from, shares),
    {
        if self.version != 1 {
            return Some(Halt::VersionMismatch);
        }
        if self.paused {
            return Some(Halt::Paused);
        }
        if shares <= 0 {
            return Some(Halt::NonPositiveShares);
        }
        if read_amount(&self.balances, from) < shares {
            return Some(Halt::InsufficientShares);
        }
        let assets = match checked_convert_to_assets(shares, self.total_shares, self.total_assets) {
            Some(a) => a,
            None => return Some(Halt::Overflow),
        };
        if assets > self.max_withdraw_per_tx {
            return Some(Halt::WithdrawalCapExceeded);
        }
        if assets > self.withdraw_queue_threshold {
            return self.queue_withdraw_halt(from, shares);
        }
        let new_total_shares = match self.total_shares.checked_sub(shares) {
            Some(t) => t,
            None => return Some(Halt::Overflow),
        };
        let new_total_assets = match self.total_assets.checked_sub(assets) {
            Some(t) => t,
            None => return Some(Halt::Overflow),
        };
        if checked_share_price(new_total_assets, new_total_shares).is_none() {
            return Some(Halt::Overflow);
        }
        if self.token.is_none() {
            return Some(Halt::NotInitialized);
        }
        None
    }

    /// Withdraw `shares` of `from` at time `now`: paid at once when the assets
    /// do not exceed the queue threshold, queued otherwise.
    pub fn withdraw(&mut self, from: AccountId, shares: i128, now: u64) -> (r: WithdrawOutcome)
        requires
            old(self)@.withdraw_halt(from, shares) is None,
        ensures
            old(self)@.withdraw_is_queued(shares) ==> final(self)@ == old(self)@.queued(
                from,
                shares,
                now,
            ) && r == WithdrawOutcome::Queued(
                QueueReceipt {
                    shares,
                    share_price: share_price_of(
                        old(self).total_assets as int,
                        old(self).total_shares as int,
                    ) as i128,
                    total_assets: old(self).total_assets,
                    total_shares: old(self).total_shares,
                },
            ),
            !old(self)@.withdraw_is_queued(shares) ==> final(self)@ == old(self)@.withdrawn(
                from,
                shares,
            ) && r == (WithdrawOutcome::Paid {
                assets: old(self)@.assets_for(shares as int) as i128,
                share_price: share_price_of(
                    final(self).total_assets as int,
                    final(self).total_shares as int,
                ) as i128,
                total_assets: final(self).total_assets,
                total_shares: final(self).total_shares,
            }),
    {
        let assets = convert_to_assets(shares, self.total_shares, self.total_assets);
        if assets > self.withdraw_queue_threshold {
            let receipt = self.queue_withdraw(from, shares, now);
            return WithdrawOutcome::Queued(receipt);
        }
        let balance = read_amount(&self.balances, from);
        self.total_shares = self.total_shares - shares;
        self.total_assets = self.total_assets - assets;
        self.balances.insert(from, balance - shares);
        let price = share_price(self.total_assets, self.total_shares);
        WithdrawOutcome::Paid {
            assets,
            share_price: price,
            total_assets: self.total_assets,
            total_shares: self.total_shares,
        }
    }
    /// Why `process_queued_withdrawals` would abort, if it would.
    pub fn process_halt(&self, limit: u32) -> (r: Option<Halt>)
        ensures
            r == self@.process_halt(limit),
    {
        if self.admin.is_none() || self.token.is_none() {
            return Some(Halt::NotInitialized);
        }
        let len = self.pending_withdrawals.len();
        let k: usize = if (limit as usize) < len {
            limit as usize
        } else {
            len
        };
        let ghost q = self.pending_withdrawals@;
        let ghost ts0 = self.total_shares as int;
        let ghost ta0 = self.total_assets as int;
        let mut ts: i128 = self.total_shares;
        let mut ta: i128 = self.total_assets;
        let mut i: usize = 0;
        while i < k
            invariant
                k <= len == q.len(),
                q == self.pending_withdrawals@,
                ts0 == self.total_shares,
                ta0 == self.total_assets,
                k == processed_count(q.len() as int, limit),
                self.admin is Some && self.token is Some,
                i <= k,
                process_defined(q, i as int, ts0, ta0),
                ts == ts0 - shares_paid(q, i as int),
                ta == ta0 - assets_paid(q, i as int, ts0, ta0),
            decreases k - i,
        {
            let w = self.pending_withdrawals[i];
            let next = match checked_convert_to_assets(w.shares, self.total_shares, self.total_assets) {
                Some(assets) => match ts.checked_sub(w.shares) {
                    Some(t) => match ta.checked_sub(assets) {
                        Some(a) => Some((t, a)),
                        None => None,
                    },
                    None => None,
                },
                None => None,
            };
            match next {
                Some((t, a)) => {
                    ts = t;
                    ta = a;
                },
                None => {
                    proof {
                        if process_defined(q, k as int, ts0, ta0) {
                            lemma_process_defined_prefix(q, k as int, i + 1, ts0, ta0);
                            assert(process_defined(q, i + 1, ts0, ta0));
                            assert(w == q[i as int]);
                            assert(shares_paid(q, i + 1) == shares_paid(q, i as int) + w.shares);
                            assert(assets_for_defined(w.shares as int, ts0, ta0));
                            assert(fits(ts0 - shares_paid(q, i + 1)));
                            assert(assets_paid(q, i + 1, ts0, ta0) == assets_paid(q, i as int, ts0, ta0)
                                + assets_for(w.shares as int, ts0, ta0));
                            assert(fits(ta0 - assets_paid(q, i + 1, ts0, ta0)));
                        }
                    }
                    return Some(Halt::Overflow);
                },
            }
            i = i + 1;
        }
        None
    }

    /// Pay the first `limit` queued withdrawals, oldest first, each at the
    /// rate that stood before processing began; the rest stay queued.  The
    /// payouts, in order, are what the host transfers.
    pub fn process_queued_withdrawals(&mut self, limit: u32) -> (r: Vec<Payout>)
        requires
            old(self)@.process_halt(limit) is None,
        ensures
            final(self)@ == old(self)@.processed(limit),
            r.len() == processed_count(old(self).pending_withdrawals.len() as int, limit),
            forall|i: int|
                #![trigger r@[i]]
                0 <= i < r.len() ==> {
                    let q = old(self).pending_withdrawals@;
                    let ts = old(self).total_shares as int;
                    let ta = old(self).total_assets as int;
                    r@[i] == (Payout {
                        user: q[i].user,
                        shares: q[i].shares,
                        assets: assets_for(q[i].shares as int, ts, ta) as i128,
                        total_assets: (ta - assets_paid(q, i + 1, ts, ta)) as i128,
                        total_shares: (ts - shares_paid(q, i + 1)) as i128,
                    })
                },
    {
        let len = self.pending_withdrawals.len();
        let k: usize = if (limit as usize) < len {
            limit as usize
        } else {
            len
        };
        let ghost q = self.pending_withdrawals@;
        let ghost ts0 = self.total_shares as int;
        let ghost ta0 = self.total_assets as int;
        let mut ts: i128 = self.total_shares;
        let mut ta: i128 = self.total_assets;
        let mut payouts: Vec<Payout> = Vec::new();
        let mut i: usize = 0;
        while i < k
            invariant
                k <= len == q.len(),
                q == self.pending_withdrawals@,
                ts0 == self.total_shares,
                ta0 == self.total_assets,
                k == processed_count(q.len() as int, limit),
                process_defined(q, k as int, ts0, ta0),
                i <= k,
                ts == ts0 - shares_paid(q, i as int),
                ta == ta0 - assets_paid(q, i as int, ts0, ta0),
                payouts.len() == i,
                forall|j: int|
                    #![trigger payouts@[j]]
                    0 <= j < i ==> payouts@[j] == (Payout {
                        user: q[j].user,
                        shares: q[j].shares,
                        assets: assets_for(q[j].shares as int, ts0, ta0) as i128,
                        total_assets: (ta0 - assets_paid(q, j + 1, ts0, ta0)) as i128,
                        total_shares: (ts0 - shares_paid(q, j + 1)) as i128,
                    }),
            decreases k - i,
        {
            proof {
                lemma_process_defined_prefix(q, k as int, i + 1, ts0, ta0);
            }
            let w = self.pending_withdrawals[i];
            let assets = convert_to_assets(w.shares, self.total_shares, self.total_assets);
            ts = ts - w.shares;
            ta = ta - assets;
            payouts.push(
                Payout { user: w.user, shares: w.shares, assets, total_assets: ta, total_shares: ts },
            );
            i = i + 1;
        }
        let mut remaining: Vec<QueuedWithdrawal> = Vec::new();
        let mut j: usize = k;
        while j < len
            invariant
                k <= j <= len == q.len(),
                q == self.pending_withdrawals@,
                remaining@ == q.subrange(k as int, j as int),
            decreases len - j,
        {
            remaining.push(self.pending_withdrawals[j]);
            j = j + 1;
        }
        self.total_shares = ts;
        self.total_assets = ta;
        self.pending_withdrawals = remaining;
        payouts
    }

    /// Why `cancel_queued_withdrawal` would abort, if it would.
    pub fn cancel_halt(&self, from: AccountId) -> (r: Option<Halt>)
        ensures
            r == self@.cancel_halt(from),
    {
        let len = self.pending_withdrawals.len();
        let mut i: usize = 0;
        while i < len
            invariant
                len == self.pending_withdrawals.len(),
                i <= len,
                forall|j: int| 0 <= j < i ==> self.pending_withdrawals@[j].user != from,
            decreases len - i,
        {
            if self.pending_withdrawals[i].user == from {
                proof {
                    lemma_first_queued_at(self.pending_withdrawals@, from, i as int);
                }
                return match read_amount(&self.balances, from).checked_add(
                    self.pending_withdrawals[i].shares,
                ) {
                    Some(_) => None,
                    None => Some(Halt::Overflow),
                };
            }
            i = i + 1;
        }
        proof {
            if first_queued(self.pending_withdrawals@, from) is Some {
                let c = first_queued(self.pending_withdrawals@, from)->0;
                assert(self.pending_withdrawals@[c].user == from);
            }
        }
        None
    }

    /// Cancel the first queued withdrawal of `from` and give its shares back.
    pub fn cancel_queued_withdrawal(&mut self, from: AccountId) -> (r: Result<CancelReceipt, Error>)
        requires
            old(self)@.cancel_halt(from) is None,
        ensures
            match first_queued(old(self).pending_withdrawals@, from) {
                None => r == Err::<CancelReceipt, Error>(Error::WithdrawalNotFound) && final(self)@
                    == old(self)@,
                Some(i) => final(self)@ == old(self)@.cancelled(from, i) && r == Ok::<
                    CancelReceipt,
                    Error,
                >(
                    CancelReceipt {
                        shares: old(self).pending_withdrawals@[i].shares,
                        total_assets: old(self).total_assets,
                        total_shares: old(self).total_shares,
                    },
                ),
            },
    {
        let mut i: usize = 0;
        let len = self.pending_withdrawals.len();
        while i < len
            invariant
                self@ == old(self)@,
                self@.cancel_halt(from) is None,
                len == self.pending_withdrawals.len(),
                i <= len,
                forall|j: int| 0 <= j < i ==> self.pending_withdrawals@[j].user != from,
            decreases len - i,
        {
            if self.pending_withdrawals[i].user == from {
                proof {
                    lemma_first_queued_at(self.pending_withdrawals@, from, i as int);
                }
                let w = self.pending_withdrawals.remove(i);
                let balance = read_amount(&self.balances, from);
                self.balances.insert(from, balance + w.shares);
                return Ok(
                    CancelReceipt {
                        shares: w.shares,
                        total_assets: self.total_assets,
                        total_shares: self.total_shares,
                    },
                );
            }
            i = i + 1;
        }
        proof {
            if first_queued(self.pending_withdrawals@, from) is Some {
                let c = first_queued(self.pending_withdrawals@, from)->0;
                assert(self.pending_withdrawals@[c].user == from);
            }
        }
        Err(Error::WithdrawalNotFound)
    }
    /// The timelock of a proposal made at `proposed_at` has run out at `now`.
    pub fn timelock_elapsed(&self, proposed_at: u64, now: u64) -> (r: bool)
        ensures
            r == self@.timelock_elapsed(proposed_at, now),
    {
        self.timelock_duration == 0 || now.saturating_sub(proposed_at) >= self.timelock_duration
    }

    /// How far executing `action`, proposed at `proposed_at`, gets at `now`.
    pub fn execute_verdict(&self, action: ActionType, proposed_at: u64, now: u64) -> (r: Verdict)
        ensures
            r == self@.execute_verdict(action, proposed_at, now),
    {
        if !self.timelock_elapsed(proposed_at, now) {
            return Verdict::Refuse(Error::TimelockNotElapsed);
        }
        match action {
            ActionType::SetPaused(_) => Verdict::Proceed,
            ActionType::AddStrategy(strategy) => {
                if self.version != 1 {
                    Verdict::Halt(Halt::VersionMismatch)
                } else if self.admin.is_none() {
                    Verdict::Halt(Halt::NotInitialized)
                } else if contains_account(&self.strategies, strategy) {
                    Verdict::Refuse(Error::AlreadyInitialized)
                } else {
                    Verdict::Proceed
                }
            },
            ActionType::Rebalance(_) => {
                if self.version != 1 {
                    Verdict::Halt(Halt::VersionMismatch)
                } else if self.admin.is_none() || self.oracle.is_none() {
                    Verdict::Halt(Halt::NotInitialized)
                } else if now > self.oracle_last_update.saturating_add(self.max_staleness) {
                    Verdict::Refuse(Error::StaleOracleData)
                } else if self.target_allocations.is_none() {
                    Verdict::Refuse(Error::NotInitialized)
                } else if self.asset.is_none() {
                    Verdict::Halt(Halt::NotInitialized)
                } else {
                    Verdict::Proceed
                }
            },
        }
    }

    /// Register `strategy` at `now`, healthy, with nothing recorded in it.
    fn add_strategy(&mut self, strategy: AccountId, now: u64)
        ensures
            final(self)@ == old(self)@.strategy_added(strategy, now),
    {
        self.strategies.push(strategy);
        self.strategy_health.insert(
            strategy,
            StrategyHealth { last_known_balance: 0, last_check_timestamp: now, is_healthy: true },
        );
    }

    /// Execute `action`, proposed at `proposed_at`, at `now`.
    fn execute_action(&mut self, action: ActionType, proposed_at: u64, now: u64) -> (r: Result<
        Effect,
        Error,
    >)
        requires
            !(old(self)@.execute_verdict(action, proposed_at, now) is Halt),
        ensures
            match old(self)@.execute_verdict(action, proposed_at, now) {
                Verdict::Refuse(e) => r matches Err(e2) && e2 == e && final(self)@ == old(self)@,
                _ => r matches Ok(effect) && final(self)@ == old(self)@.action_executed(action, now)
                    && old(self)@.effect_of(action, effect),
            },
    {
        match self.execute_verdict(action, proposed_at, now) {
            Verdict::Refuse(e) => {
                return Err(e);
            },
            _ => {},
        }
        match action {
            ActionType::SetPaused(state) => {
                self.paused = state;
                Ok(Effect::Nothing)
            },
            ActionType::AddStrategy(strategy) => {
                self.add_strategy(strategy, now);
                Ok(Effect::Nothing)
            },
            ActionType::Rebalance(max_slippage_bps) => {
                let allocations = copy_allocations(self.target_allocations.as_ref().unwrap());
                Ok(
                    Effect::Rebalance(
                        RebalanceOrder {
                            max_slippage_bps,
                            allocations,
                            total_assets: self.total_assets,
                            asset: self.asset.unwrap(),
                        },
                    ),
                )
            },
        }
    }

    /// How far `proposer` proposing `action` at `now` gets.
    pub fn propose_verdict(&self, proposer: AccountId, action: ActionType, now: u64) -> (r: Verdict)
        ensures
            r == self@.propose_verdict(proposer, action, now),
    {
        match &self.guardians {
            None => {
                return Verdict::Halt(Halt::NotInitialized);
            },
            Some(g) => {
                if !contains_account(g, proposer) {
                    return Verdict::Refuse(Error::Unauthorized);
                }
            },
        }
        if self.next_proposal_id == u64::MAX {
            return Verdict::Halt(Halt::Overflow);
        }
        if self.threshold <= 1 {
            match self.execute_verdict(action, now, now) {
                Verdict::Halt(h) => Verdict::Halt(h),
                Verdict::Refuse(e) => if e == Error::TimelockNotElapsed {
                    Verdict::Proceed
                } else {
                    Verdict::Refuse(e)
                },
                Verdict::Proceed => Verdict::Proceed,
            }
        } else {
            Verdict::Proceed
        }
    }

    /// Store `p` as proposal `id`.
    fn store_proposal(&mut self, id: u64, p: Proposal)
        ensures
            final(self)@ == (VaultView {
                proposals: Some(old(self)@.proposal_map().insert(id, p@)),
                ..old(self)@
            }),
    {
        let mut m = match self.proposals.take() {
            Some(m) => m,
            None => HashMap::new(),
        };
        let ghost before = m@;
        m.insert(id, p);
        proof {
            assert(proposals_view(m@) =~= proposals_view(before).insert(id, p@));
        }
        self.proposals = Some(m);
    }

    /// Propose `action` as guardian `proposer` at `now`.  With a threshold of
    /// at most one the action is executed at once, unless its timelock has
    /// not run out; the proposal is stored either way.  Returns the new
    /// proposal's id and the outside work the execution leaves.  A rebalance
    /// leaves its proposal pending until [`VolatilityShield::complete_rebalance`].
    pub fn propose_action(&mut self, proposer: AccountId, action: ActionType, now: u64) -> (r:
        Result<(u64, Effect), Error>)
        requires
            !(old(self)@.propose_verdict(proposer, action, now) is Halt),
        ensures
            match old(self)@.propose_verdict(proposer, action, now) {
                Verdict::Refuse(e) => r matches Err(e2) && e2 == e && final(self)@ == old(self)@,
                _ => r matches Ok((id, effect)) && id == old(self).next_proposal_id && final(self)@
                    == old(self)@.proposed(proposer, action, now) && (if old(
                    self,
                )@.propose_executes(action, now) {
                    old(self)@.effect_of(action, effect)
                } else {
                    effect is Nothing
                }),
            },
    {
        if !contains_account(self.guardians.as_ref().unwrap(), proposer) {
            return Err(Error::Unauthorized);
        }
        let id = self.next_proposal_id;
        let ghost start = self@;
        let mut executed = false;
        let mut effect = Effect::Nothing;
        if self.threshold <= 1 {
            match self.execute_action(action, now, now) {
                Ok(e) => {
                    executed = match action {
                        ActionType::Rebalance(_) => false,
                        _ => true,
                    };
                    effect = e;
                },
                Err(e) => {
                    if e != Error::TimelockNotElapsed {
                        return Err(e);
                    }
                },
            }
        }
        self.next_proposal_id = id + 1;
        let mut approvals = Vec::new();
        approvals.push(proposer);
        let proposal = Proposal { id, proposer, action, approvals, executed, proposed_at: now };
        self.store_proposal(id, proposal);
        Ok((id, effect))
    }

    /// How far `guardian` approving proposal `id` at `now` gets.
    pub fn approve_verdict(&self, guardian: AccountId, id: u64, now: u64) -> (r: Verdict)
        ensures
            r == self@.approve_verdict(guardian, id, now),
    {
        match &self.guardians {
            None => {
                return Verdict::Refuse(Error::NotInitialized);
            },
            Some(g) => {
                if !contains_account(g, guardian) {
                    return Verdict::Refuse(Error::Unauthorized);
                }
            },
        }
        let m = match &self.proposals {
            None => {
                return Verdict::Refuse(Error::NotInitialized);
            },
            Some(m) => m,
        };
        let p = match m.get(&id) {
            None => {
                return Verdict::Refuse(Error::ProposalNotFound);
            },
            Some(p) => p,
        };
        if p.executed {
            return Verdict::Refuse(Error::ProposalExecuted);
        }
        if contains_account(&p.approvals, guardian) {
            return Verdict::Refuse(Error::AlreadyApproved);
        }
        if p.approvals.len() as u128 + 1 >= self.threshold as u128 {
            self.execute_verdict(p.action, p.proposed_at, now)
        } else {
            Verdict::Proceed
        }
    }

    /// Approve proposal `id` as `guardian` at `now`; when the approvals
    /// reach the threshold the action is executed.  Returns the outside work
    /// the execution leaves.  A rebalance leaves the proposal pending until
    /// [`VolatilityShield::complete_rebalance`].
    pub fn approve_action(&mut self, guardian: AccountId, id: u64, now: u64) -> (r: Result<
        Effect,
        Error,
    >)
        requires
            !(old(self)@.approve_verdict(guardian, id, now) is Halt),
        ensures
            match old(self)@.approve_verdict(guardian, id, now) {
                Verdict::Refuse(e) => r matches Err(e2) && e2 == e && final(self)@ == old(self)@,
                _ => r matches Ok(effect) && final(self)@ == old(self)@.approved(guardian, id, now)
                    && (if old(self)@.approval_completes(id) {
                    old(self)@.effect_of(old(self)@.proposal_map()[id].action, effect)
                } else {
                    effect is Nothing
                }),
            },
    {
        match self.approve_verdict(guardian, id, now) {
            Verdict::Refuse(e) => {
                return Err(e);
            },
            _ => {},
        }
        let mut p = self.proposals.as_ref().unwrap().get(&id).unwrap().duplicate();
        p.approvals.push(guardian);
        let mut effect = Effect::Nothing;
        if p.approvals.len() as u64 >= self.threshold as u64 {
            match self.execute_action(p.action, p.proposed_at, now) {
                Ok(e) => {
                    effect = e;
                    p.executed = match p.action {
                        ActionType::Rebalance(_) => false,
                        _ => true,
                    };
                },
                Err(e) => {
                    return Err(e);
                },
            }
        }
        self.store_proposal(id, p);
        Ok(effect)
    }

    /// Settle the pending rebalance of proposal `id` once the host has moved
    /// the funds of `order` and read each strategy's balance `finals`: when
    /// every strategy passed its slippage check the proposal is executed,
    /// otherwise the rebalance is refused with `SlippageExceeded` and nothing
    /// changes.
    pub fn complete_rebalance(&mut self, id: u64, order: &RebalanceOrder, finals: &Vec<i128>) -> (r:
        Result<(), Error>)
        requires
            old(self).proposals is Some,
            old(self)@.proposal_map().contains_key(id),
            finals.len() == order.allocations.len(),
            rebalance_outcome(
                order.allocations@,
                order.total_assets,
                order.max_slippage_bps,
                finals@,
            ) is Some,
        ensures
            match rebalance_outcome(
                order.allocations@,
                order.total_assets,
                order.max_slippage_bps,
                finals@,
            ) {
                Some(Ok(())) => r is Ok && final(self)@ == old(self)@.rebalance_completed(id),
                _ => r == Err::<(), Error>(Error::SlippageExceeded) && final(self)@ == old(self)@,
            },
    {
        match check_rebalance(order, finals) {
            Some(Ok(())) => {},
            _ => {
                return Err(Error::SlippageExceeded);
            },
        }
        let mut p = self.proposals.as_ref().unwrap().get(&id).unwrap().duplicate();
        p.executed = true;
        self.store_proposal(id, p);
        Ok(())
    }

    /// Add `guardian` to the multisig (nothing changes if it is one).
    pub fn add_guardian(&mut self, guardian: AccountId)
        requires
            old(self)@.admin_halt() is None,
        ensures
            final(self)@ == old(self)@.guardian_added(guardian),
    {
        let mut g = match self.guardians.take() {
            Some(g) => g,
            None => Vec::new(),
        };
        if !contains_account(&g, guardian) {
            g.push(guardian);
            self.guardians = Some(g);
        } else {
            proof {
                assert(old(self).guardians is Some);
            }
            self.guardians = Some(g);
        }
    }

    /// Remove the first occurrence of `guardian` from the multisig.
    pub fn remove_guardian(&mut self, guardian: AccountId) -> (r: Result<(), Error>)
        requires
            old(self)@.admin_halt() is None,
        ensures
            match first_index(old(self)@.guardian_list(), guardian) {
                None => r == Err::<(), Error>(Error::Unauthorized) && final(self)@ == old(self)@,
                Some(i) => r is Ok && final(self)@ == old(self)@.guardian_removed(i),
            },
    {
        let was_stored = self.guardians.is_some();
        let mut g = match self.guardians.take() {
            Some(g) => g,
            None => Vec::new(),
        };
        let ghost list = g@;
        let mut i: usize = 0;
        while i < g.len()
            invariant
                g@ == list,
                list == old(self)@.guardian_list(),
                self@ == (VaultView { guardians: None, ..old(self)@ }),
                was_stored == old(self).guardians is Some,
                i <= g.len(),
                forall|j: int| 0 <= j < i ==> list[j] != guardian,
            decreases g.len() - i,
        {
            if g[i] == guardian {
                proof {
                    lemma_first_index_at(list, guardian, i as int);
                }
                g.remove(i);
                self.guardians = Some(g);
                return Ok(());
            }
            i = i + 1;
        }
        proof {
            lemma_first_index_none(list, guardian);
        }
        if was_stored {
            self.guardians = Some(g);
        }
        Err(Error::Unauthorized)
    }

    /// Set the number of approvals that execute a proposal.
    pub fn set_threshold(&mut self, threshold: u32) -> (r: Result<(), Error>)
        requires
            old(self)@.admin_halt() is None,
        ensures
            old(self)@.threshold_refused(threshold) ==> r == Err::<(), Error>(Error::Unauthorized)
                && final(self)@ == old(self)@,
            !old(self)@.threshold_refused(threshold) ==> r is Ok && final(self)@ == (VaultView {
                threshold,
                ..old(self)@
            }),
    {
        let count: usize = match &self.guardians {
            Some(g) => g.len(),
            None => 0,
        };
        if threshold == 0 || threshold as usize > count {
            return Err(Error::Unauthorized);
        }
        self.threshold = threshold;
        Ok(())
    }
}

/// A copy of an allocation list.
pub(crate) fn copy_allocations(v: &Vec<(AccountId, i128)>) -> (r: Vec<(AccountId, i128)>)
    ensures
        r@ == v@,
{
    let mut r: Vec<(AccountId, i128)> = Vec::new();
    let mut i: usize = 0;
    while i < v.len()
        invariant
            i <= v.len(),
            r@ == v@.take(i as int),
        decreases v.len() - i,
    {
        r.push(v[i]);
        i = i + 1;
        proof {
            assert(r@ =~= v@.take(i as int));
        }
    }
    proof {
        assert(v@.take(v.len() as int) =~= v@);
    }
    r
}

} // verus!
