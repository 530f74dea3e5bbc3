//! Views of the vault's storage, its settings, the accepted assets, and
//! the conversions at the current share price.
use vstd::prelude::*;

use crate::math::{
    after_fees, after_fees_defined, assets_for, assets_for_defined, checked_convert_to_assets,
    checked_convert_to_shares, checked_share_price, convert_to_assets, convert_to_shares,
    deduct_fees, fits, rebalance_delta, share_price, share_price_of, shares_for, shares_for_defined,
};
use crate::model::VaultView;
use crate::types::{AccountId, Halt, QueuedWithdrawal};
use crate::vault::{balance_key, contains_account, read_amount, read_pair_amount, VolatilityShield};

verus! {

broadcast use vstd::std_specs::hash::group_hash_axioms;

/// A copy of a list of accounts.
pub fn copy_accounts(v: &Vec<AccountId>) -> (r: Vec<AccountId>)
    ensures
        r@ == v@,
{
    let mut r: Vec<AccountId> = Vec::new();
    let mut i: usize = 0;
    while i < v.len()
        invariant
            i <= v.len(),
            r@ == v@.take(i as int),
        decreases v.len() - i,
    {
        r.push(v[i]);
        i = i + 1;
        proof {
            assert(r@ =~= v@.take(i as int));
        }
    }
    proof {
        assert(v@.take(v.len() as int) =~= v@);
    }
    r
}

/// Each accepted asset with the assets deposited in it.
pub open spec fn asset_totals_list(v: VaultView) -> Seq<(AccountId, i128)> {
    v.accepted_assets.map_values(|a: AccountId| (a, v.asset_total_of(a)))
}

impl VaultView {
    /// Why `set_deposit_cap` aborts, if it does.
    pub open spec fn deposit_cap_halt(self) -> Option<Halt> {
        if self.version != 1 {
            Some(Halt::VersionMismatch)
        } else {
            self.admin_halt()
        }
    }

    /// Why `set_withdraw_queue_threshold` aborts, if it does.
    pub open spec fn queue_threshold_halt(self, threshold: i128) -> Option<Halt> {
        if self.admin is None {
            Some(Halt::NotInitialized)
        } else if threshold < 0 {
            Some(Halt::NegativeThreshold)
        } else {
            None
        }
    }

    /// Why `migrate` aborts, if it does.
    pub open spec fn migrate_halt(self, new_version: u32) -> Option<Halt> {
        if self.admin is None {
            Some(Halt::NotInitialized)
        } else if new_version <= self.version {
            Some(Halt::VersionNotNewer)
        } else {
            None
        }
    }

    /// Storage after `asset` is accepted (nothing changes if it is).
    pub open spec fn asset_accepted(self, asset: AccountId) -> VaultView {
        if self.accepted_assets.contains(asset) {
            self
        } else {
            VaultView {
                accepted_assets: self.accepted_assets.push(asset),
                asset_totals: self.asset_totals.insert(asset, 0),
                ..self
            }
        }
    }
}

impl VolatilityShield {
    // ── Views ──────────────────────────────────────────────────

    /// An admin was stored, that is, the vault was initialised.
    pub fn has_admin(&self) -> (r: bool)
        ensures
            r == self@.admin is Some,
    {
        self.admin.is_some()
    }

    /// The admin.
    pub fn read_admin(&self) -> (r: AccountId)
        requires
            self@.admin is Some,
        ensures
            Some(r) == self@.admin,
    {
        self.admin.unwrap()
    }

    /// Assets the vault manages.
    pub fn total_assets(&self) -> (r: i128)
        ensures
            r == self@.total_assets,
    {
        self.total_assets
    }

    /// Shares in circulation.
    pub fn total_shares(&self) -> (r: i128)
        ensures
            r == self@.total_shares,
    {
        self.total_shares
    }

    /// The oracle.
    pub fn get_oracle(&self) -> (r: AccountId)
        requires
            self@.oracle is Some,
        ensures
            Some(r) == self@.oracle,
    {
        self.oracle.unwrap()
    }

    /// The vault's primary asset.
    pub fn get_asset(&self) -> (r: AccountId)
        requires
            self@.asset is Some,
        ensures
            Some(r) == self@.asset,
    {
        self.asset.unwrap()
    }

    /// The registered strategies, in registration order.
    pub fn get_strategies(&self) -> (r: Vec<AccountId>)
        ensures
            r@ == self@.strategies,
    {
        copy_accounts(&self.strategies)
    }

    /// The fee treasury.
    pub fn treasury(&self) -> (r: AccountId)
        requires
            self@.treasury is Some,
        ensures
            Some(r) == self@.treasury,
    {
        self.treasury.unwrap()
    }

    /// The management fee in basis points.
    pub fn fee_percentage(&self) -> (r: u32)
        ensures
            r == self@.fee_percentage,
    {
        self.fee_percentage
    }

    /// Shares held by `user`.
    pub fn balance(&self, user: AccountId) -> (r: i128)
        ensures
            r == self@.balance_of(user),
    {
        read_amount(&self.balances, user)
    }

    /// The guardians, none when none were stored.
    pub fn get_guardians(&self) -> (r: Vec<AccountId>)
        ensures
            r@ == self@.guardian_list(),
    {
        match &self.guardians {
            Some(g) => copy_accounts(g),
            None => Vec::new(),
        }
    }

    /// Approvals that execute a proposal.
    pub fn get_threshold(&self) -> (r: u32)
        ensures
            r == self@.threshold,
    {
        self.threshold
    }

    /// Assets above which a withdrawal is queued.
    pub fn get_withdraw_queue_threshold(&self) -> (r: i128)
        ensures
            r == self@.withdraw_queue_threshold,
    {
        self.withdraw_queue_threshold
    }

    /// The queued withdrawals, oldest first.
    pub fn get_pending_withdrawals(&self) -> (r: Vec<QueuedWithdrawal>)
        ensures
            r@ == self@.pending_withdrawals,
    {
        let mut r: Vec<QueuedWithdrawal> = Vec::new();
        let mut i: usize = 0;
        while i < self.pending_withdrawals.len()
            invariant
                i <= self.pending_withdrawals.len(),
                r@ == self@.pending_withdrawals.take(i as int),
            decreases self.pending_withdrawals.len() - i,
        {
            r.push(self.pending_withdrawals[i]);
            i = i + 1;
            proof {
                assert(r@ =~= self@.pending_withdrawals.take(i as int));
            }
        }
        proof {
            assert(self@.pending_withdrawals.take(self.pending_withdrawals.len() as int)
                =~= self@.pending_withdrawals);
        }
        r
    }

    /// Seconds after which oracle data is stale.
    pub fn max_staleness(&self) -> (r: u64)
        ensures
            r == self@.max_staleness,
    {
        self.max_staleness
    }

    /// The stored contract version.
    pub fn version(&self) -> (r: u32)
        ensures
            r == self@.version,
    {
        self.version
    }

    /// The vault is paused.
    pub fn is_paused(&self) -> (r: bool)
        ensures
            r == self@.paused,
    {
        self.paused
    }

    // ── Conversions ────────────────────────────────────────────

    /// What is left of `amount` after the management fee.
    pub fn take_fees(&self, amount: i128) -> (r: i128)
        requires
            after_fees_defined(amount as int, self@.fee_percentage as int),
        ensures
            r == after_fees(amount as int, self@.fee_percentage as int),
    {
        deduct_fees(amount, self.fee_percentage)
    }

    /// Price of one share with nine decimals.
    pub fn get_share_price(&self) -> (r: i128)
        requires
            self@.price_defined(),
        ensures
            r == share_price_of(self@.total_assets as int, self@.total_shares as int),
    {
        share_price(self.total_assets, self.total_shares)
    }

    /// Shares minted now for `amount` assets.
    pub fn convert_to_shares(&self, amount: i128) -> (r: i128)
        requires
            shares_for_defined(amount as int, self@.total_shares as int, self@.total_assets as int),
        ensures
            r == self@.shares_for(amount as int),
    {
        convert_to_shares(amount, self.total_shares, self.total_assets)
    }

    /// Assets paid now for `shares`.
    pub fn convert_to_assets(&self, shares: i128) -> (r: i128)
        requires
            assets_for_defined(shares as int, self@.total_shares as int, self@.total_assets as int),
        ensures
            r == self@.assets_for(shares as int),
    {
        convert_to_assets(shares, self.total_shares, self.total_assets)
    }

    /// Why converting `amount` assets to shares would abort, if it would.
    pub fn convert_to_shares_halt(&self, amount: i128) -> (r: Option<Halt>)
        ensures
            r is None <==> shares_for_defined(
                amount as int,
                self@.total_shares as int,
                self@.total_assets as int,
            ),
            amount < 0 ==> r == Some(Halt::NegativeAmount),
            amount >= 0 && r is Some ==> r == Some(Halt::Overflow),
    {
        if amount < 0 {
            Some(Halt::NegativeAmount)
        } else if checked_convert_to_shares(amount, self.total_shares, self.total_assets).is_none() {
            Some(Halt::Overflow)
        } else {
            None
        }
    }

    /// Why converting `shares` to assets would abort, if it would.
    pub fn convert_to_assets_halt(&self, shares: i128) -> (r: Option<Halt>)
        ensures
            r is None <==> assets_for_defined(
                shares as int,
                self@.total_shares as int,
                self@.total_assets as int,
            ),
            shares < 0 ==> r == Some(Halt::NegativeAmount),
            shares >= 0 && r is Some ==> r == Some(Halt::Overflow),
    {
        if shares < 0 {
            Some(Halt::NegativeAmount)
        } else if checked_convert_to_assets(shares, self.total_shares, self.total_assets).is_none() {
            Some(Halt::Overflow)
        } else {
            None
        }
    }

    /// Why taking the fee from `amount` would abort, if it would.
    pub fn take_fees_halt(&self, amount: i128) -> (r: Option<Halt>)
        ensures
            r is None <==> after_fees_defined(amount as int, self@.fee_percentage as int),
            r is Some ==> r == Some(Halt::Overflow),
    {
        if self.fee_percentage != 0 && amount.checked_mul(self.fee_percentage as i128).is_none() {
            Some(Halt::Overflow)
        } else {
            None
        }
    }

    /// Why computing the share price would abort, if it would.
    pub fn share_price_halt(&self) -> (r: Option<Halt>)
        ensures
            r is None <==> self@.price_defined(),
            r is Some ==> r == Some(Halt::Overflow),
    {
        if checked_share_price(self.total_assets, self.total_shares).is_none() {
            Some(Halt::Overflow)
        } else {
            None
        }
    }

    /// Why computing the rebalance delta would abort, if it would.
    pub fn rebalance_delta_halt(current: i128, target: i128) -> (r: Option<Halt>)
        ensures
            r is None <==> fits(target - current),
            r is Some ==> r == Some(Halt::Overflow),
    {
        if target.checked_sub(current).is_none() {
            Some(Halt::Overflow)
        } else {
            None
        }
    }

    /// Difference between a strategy's `current` and `target` balance.
    pub fn calc_rebalance_delta(current: i128, target: i128) -> (r: i128)
        requires
            fits(target - current),
        ensures
            r == rebalance_delta(current as int, target as int),
    {
        target - current
    }

    /// Whether a call that expects contract version `expected` aborts: it
    /// does when another version is stored.
    pub fn check_version(&self, expected: u32) -> (r: Option<Halt>)
        ensures
            r == (if self@.version == expected {
                None::<Halt>
            } else {
                Some(Halt::VersionMismatch)
            }),
    {
        if self.version == expected {
            None
        } else {
            Some(Halt::VersionMismatch)
        }
    }

    // ── Direct settings ────────────────────────────────────────

    /// Overwrite the vault's total assets.
    pub fn set_total_assets(&mut self, amount: i128)
        ensures
            final(self)@ == (VaultView { total_assets: amount, ..old(self)@ }),
    {
        self.total_assets = amount;
    }

    /// Overwrite the shares in circulation.
    pub fn set_total_shares(&mut self, amount: i128)
        ensures
            final(self)@ == (VaultView { total_shares: amount, ..old(self)@ }),
    {
        self.total_shares = amount;
    }

    /// Overwrite the shares held by `user`.
    pub fn set_balance(&mut self, user: AccountId, amount: i128)
        ensures
            final(self)@ == (VaultView {
                balances: old(self)@.balances.insert(user, amount),
                ..old(self)@
            }),
    {
        self.balances.insert(user, amount);
    }

    /// Overwrite the token in which withdrawals are paid.
    pub fn set_token(&mut self, token: AccountId)
        ensures
            final(self)@ == (VaultView { token: Some(token), ..old(self)@ }),
    {
        self.token = Some(token);
    }

    // ── Admin settings ─────────────────────────────────────────

    /// Pause or resume deposits and withdrawals.
    pub fn set_paused(&mut self, state: bool)
        requires
            old(self)@.admin_halt() is None,
        ensures
            final(self)@ == (VaultView { paused: state, ..old(self)@ }),
    {
        self.paused = state;
    }

    /// Why `set_deposit_cap` would abort, if it would.
    pub fn deposit_cap_halt(&self) -> (r: Option<Halt>)
        ensures
            r == self@.deposit_cap_halt(),
    {
        if self.version != 1 {
            Some(Halt::VersionMismatch)
        } else if self.admin.is_none() {
            Some(Halt::NotInitialized)
        } else {
            None
        }
    }

    /// Cap each account's shares at `per_user` and the vault's assets at `global`.
    pub fn set_deposit_cap(&mut self, per_user: i128, global: i128)
        requires
            old(self)@.deposit_cap_halt() is None,
        ensures
            final(self)@ == (VaultView {
                max_deposit_per_user: per_user,
                max_total_assets: global,
                ..old(self)@
            }),
    {
        self.max_deposit_per_user = per_user;
        self.max_total_assets = global;
    }

    /// Cap the assets paid by one withdrawal at `per_tx`.
    pub fn set_withdraw_cap(&mut self, per_tx: i128)
        requires
            old(self)@.admin_halt() is None,
        ensures
            final(self)@ == (VaultView { max_withdraw_per_tx: per_tx, ..old(self)@ }),
    {
        self.max_withdraw_per_tx = per_tx;
    }

    /// Oracle data older than `seconds` is stale.
    pub fn set_max_staleness(&mut self, seconds: u64)
        requires
            old(self)@.admin_halt() is None,
        ensures
            final(self)@ == (VaultView { max_staleness: seconds, ..old(self)@ }),
    {
        self.max_staleness = seconds;
    }

    /// Proposals execute only `duration` seconds after they were made.
    pub fn set_timelock_duration(&mut self, duration: u64)
        requires
            old(self)@.admin_halt() is None,
        ensures
            final(self)@ == (VaultView { timelock_duration: duration, ..old(self)@ }),
    {
        self.timelock_duration = duration;
    }

    /// Why `set_withdraw_queue_threshold` would abort, if it would.
    pub fn queue_threshold_halt(&self, threshold: i128) -> (r: Option<Halt>)
        ensures
            r == self@.queue_threshold_halt(threshold),
    {
        if self.admin.is_none() {
            Some(Halt::NotInitialized)
        } else if threshold < 0 {
            Some(Halt::NegativeThreshold)
        } else {
            None
        }
    }

    /// Withdrawals of more than `threshold` assets are queued.
    pub fn set_withdraw_queue_threshold(&mut self, threshold: i128)
        requires
            old(self)@.queue_threshold_halt(threshold) is None,
        ensures
            final(self)@ == (VaultView { withdraw_queue_threshold: threshold, ..old(self)@ }),
    {
        self.withdraw_queue_threshold = threshold;
    }

    /// Why `migrate` would abort, if it would.
    pub fn migrate_halt(&self, new_version: u32) -> (r: Option<Halt>)
        ensures
            r == self@.migrate_halt(new_version),
    {
        if self.admin.is_none() {
            Some(Halt::NotInitialized)
        } else if new_version <= self.version {
            Some(Halt::VersionNotNewer)
        } else {
            None
        }
    }

    /// Record a migration to the newer `new_version`.
    pub fn migrate(&mut self, new_version: u32)
        requires
            old(self)@.migrate_halt(new_version) is None,
        ensures
            final(self)@ == (VaultView { version: new_version, ..old(self)@ }),
    {
        self.version = new_version;
    }

    // ── Accepted assets ────────────────────────────────────────

    /// Accept deposits of `asset` (nothing changes if they are accepted).
    pub fn add_accepted_asset(&mut self, asset: AccountId)
        requires
            old(self)@.admin_halt() is None,
        ensures
            final(self)@ == old(self)@.asset_accepted(asset),
    {
        if contains_account(&self.accepted_assets, asset) {
            return;
        }
        self.accepted_assets.push(asset);
        self.asset_totals.insert(asset, 0);
    }

    /// The accepted assets, in the order they were accepted.
    pub fn get_accepted_assets(&self) -> (r: Vec<AccountId>)
        ensures
            r@ == self@.accepted_assets,
    {
        copy_accounts(&self.accepted_assets)
    }

    /// Deposits of `asset` are accepted.
    pub fn is_accepted_asset(&self, asset: AccountId) -> (r: bool)
        ensures
            r == self@.accepted_assets.contains(asset),
    {
        contains_account(&self.accepted_assets, asset)
    }

    /// Shares that `user` received for deposits of `asset`.
    pub fn get_asset_balance(&self, asset: AccountId, user: AccountId) -> (r: i128)
        ensures
            r == self@.asset_balance_of(asset, user),
    {
        read_pair_amount(&self.asset_balances, balance_key(asset, user))
    }

    /// Assets deposited in `asset`.
    pub fn get_asset_total(&self, asset: AccountId) -> (r: i128)
        ensures
            r == self@.asset_total_of(asset),
    {
        read_amount(&self.asset_totals, asset)
    }

    /// Each accepted asset, in order, with the assets deposited in it.
    pub fn get_all_asset_totals(&self) -> (r: Vec<(AccountId, i128)>)
        ensures
            r@ == asset_totals_list(self@),
    {
        let mut r: Vec<(AccountId, i128)> = Vec::new();
        let mut i: usize = 0;
        while i < self.accepted_assets.len()
            invariant
                i <= self.accepted_assets.len(),
                r@ == asset_totals_list(self@).take(i as int),
            decreases self.accepted_assets.len() - i,
        {
            let a = self.accepted_assets[i];
            r.push((a, read_amount(&self.asset_totals, a)));
            i = i + 1;
            proof {
                assert(r@ =~= asset_totals_list(self@).take(i as int));
            }
        }
        proof {
            assert(asset_totals_list(self@).take(self.accepted_assets.len() as int)
                =~= asset_totals_list(self@));
        }
        r
    }
}

} // verus!
