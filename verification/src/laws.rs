//! Properties of the vault that span several operations or hold of all
//! inputs, each proved from the operations' specifications.
use vstd::prelude::*;

use crate::allocation::{
    allocation_error, allocation_sum, deviates, first_invalid_allocation, first_unsettled,
    lemma_valid_allocations_nonneg, names_strategy, rebalance_move_of, rebalance_outcome,
    slippage_passes, slippage_verdict, Move, SlippageBreach,
};
use crate::math::{
    assets_for, bps_target, fits, share_price_of, shares_for, trunc_div, BPS_SCALE, PRICE_SCALE,
};
use crate::model::{
    first_queued, lemma_first_queued_at, lemma_first_queued_none, shares_paid, VaultView,
};
use crate::types::{AccountId, ActionType, Error, Halt, Verdict};

verus! {

/// Floor division of a non-negative `x` by a positive `d` brackets `x`.
proof fn lemma_div_brackets(x: int, d: int)
    requires
        x >= 0,
        d > 0,
    ensures
        (x / d) * d <= x < (x / d) * d + d,
        x / d >= 0,
{
    vstd::arithmetic::div_mod::lemma_fundamental_div_mod(x, d);
    vstd::arithmetic::div_mod::lemma_mod_bound(x, d);
    assert((x / d) * d == d * (x / d)) by (nonlinear_arith);
    vstd::arithmetic::div_mod::lemma_div_pos_is_pos(x, d);
}

// ── Conversion ─────────────────────────────────────────────────────

/// While no share exists, assets and shares convert one for one, both ways.
pub proof fn law_empty_vault_converts_one_for_one(amount: int, total_assets: int)
    requires
        amount >= 0,
    ensures
        shares_for(amount, 0, total_assets) == amount,
        assets_for(amount, 0, total_assets) == amount,
{
}

/// Converting assets to shares and the shares back never yields more than
/// was put in, and loses less than one share's worth plus one unit:
/// `(amount - back) * total_shares < total_assets + total_shares`.
pub proof fn law_round_trip_rounds_down(amount: int, total_shares: int, total_assets: int)
    requires
        amount >= 0,
        total_shares > 0,
        total_assets > 0,
    ensures
        ({
            let back = assets_for(shares_for(amount, total_shares, total_assets), total_shares, total_assets);
            &&& back <= amount
            &&& (amount - back) * total_shares < total_assets + total_shares
        }),
{
    let ts = total_shares;
    let ta = total_assets;
    assert(amount * ts >= 0) by (nonlinear_arith)
        requires
            amount >= 0,
            ts > 0,
    ;
    let s = (amount * ts) / ta;
    lemma_div_brackets(amount * ts, ta);
    assert(shares_for(amount, ts, ta) == s);
    assert(s * ta >= 0) by (nonlinear_arith)
        requires
            s >= 0,
            ta > 0,
    ;
    let back = (s * ta) / ts;
    lemma_div_brackets(s * ta, ts);
    assert(assets_for(s, ts, ta) == back);
    assert(back * ts <= s * ta);
    assert(s * ta <= amount * ts);
    assert(back <= amount) by (nonlinear_arith)
        requires
            back * ts <= amount * ts,
            ts > 0,
    ;
    assert((amount - back) * ts < ta + ts) by (nonlinear_arith)
        requires
            amount * ts < s * ta + ta,
            s * ta < back * ts + ts,
    ;
}

/// A deposit never dilutes the holders: the shares minted are worth no
/// more than the assets deposited, `shares * total_assets <= amount * total_shares`.
pub proof fn law_deposit_never_dilutes(amount: int, total_shares: int, total_assets: int)
    requires
        amount >= 0,
        total_shares > 0,
        total_assets > 0,
    ensures
        shares_for(amount, total_shares, total_assets) * total_assets <= amount * total_shares,
{
    assert(amount * total_shares >= 0) by (nonlinear_arith)
        requires
            amount >= 0,
            total_shares > 0,
    ;
    lemma_div_brackets(amount * total_shares, total_assets);
}

/// A withdrawal never pays more than the shares are worth:
/// `assets * total_shares <= shares * total_assets`.
pub proof fn law_withdrawal_never_overpays(shares: int, total_shares: int, total_assets: int)
    requires
        shares >= 0,
        total_shares > 0,
        total_assets >= 0,
    ensures
        assets_for(shares, total_shares, total_assets) * total_shares <= shares * total_assets,
{
    assert(shares * total_assets >= 0) by (nonlinear_arith)
        requires
            shares >= 0,
            total_assets >= 0,
    ;
    lemma_div_brackets(shares * total_assets, total_shares);
}

// ── Deposits and withdrawals ────────────────────────────────────────

/// From an empty vault, depositing `amount` and then withdrawing every share
/// received leaves the account, the shares in circulation and the assets at
/// zero again.  (Excluded: an `amount` whose square overflows `i128`, on
/// which the vault aborts when it converts the shares back.)
pub proof fn law_deposit_then_withdraw_all(v: VaultView, user: AccountId, asset: AccountId, amount: i128)
    requires
        v.total_shares == 0,
        v.total_assets == 0,
        v.balance_of(user) == 0,
        v.deposit_halt(user, asset, amount) is None,
        fits(amount * amount),
        amount <= v.withdraw_queue_threshold,
        amount <= v.max_withdraw_per_tx,
        v.token is Some,
    ensures
        ({
            let v1 = v.deposited(user, asset, amount);
            let v2 = v1.withdrawn(user, amount);
            &&& v1.balance_of(user) == amount
            &&& v1.total_shares == amount
            &&& v1.withdraw_halt(user, amount) is None
            &&& !v1.withdraw_is_queued(amount)
            &&& v2.balance_of(user) == 0
            &&& v2.total_shares == 0
            &&& v2.total_assets == 0
        }),
{
    let v1 = v.deposited(user, asset, amount);
    assert(v1.total_shares == amount && v1.total_assets == amount);
    assert((amount * amount) / (amount as int) == amount) by (nonlinear_arith)
        requires
            amount > 0,
    ;
    assert(v1.assets_for(amount as int) == amount);
}

/// While the vault is paused no deposit, withdrawal or queued withdrawal
/// goes through.
pub proof fn law_pause_blocks_flows(v: VaultView, user: AccountId, asset: AccountId, amount: i128)
    requires
        v.paused,
    ensures
        v.version == 1 ==> v.deposit_halt(user, asset, amount) == Some(Halt::Paused),
        v.version == 1 ==> v.withdraw_halt(user, amount) == Some(Halt::Paused),
        v.queue_withdraw_halt(user, amount) == Some(Halt::Paused),
{
}

/// A deposit that goes through leaves the depositor's shares and the vault's
/// assets within their caps.
pub proof fn law_deposit_respects_caps(v: VaultView, user: AccountId, asset: AccountId, amount: i128)
    requires
        v.deposit_halt(user, asset, amount) is None,
    ensures
        v.deposited(user, asset, amount).balance_of(user) <= v.max_deposit_per_user,
        v.deposited(user, asset, amount).total_assets <= v.max_total_assets,
{
}

/// Queued shares leave the account at once: afterwards a withdrawal of more
/// than what remains is refused.
pub proof fn law_queued_shares_cannot_be_spent_twice(
    v: VaultView,
    user: AccountId,
    shares: i128,
    now: u64,
    more: i128,
)
    requires
        v.queue_withdraw_halt(user, shares) is None,
        v.version == 1,
        more > 0,
        more > v.balance_of(user) - shares,
    ensures
        v.queued(user, shares, now).balance_of(user) == v.balance_of(user) - shares,
        v.queued(user, shares, now).withdraw_halt(user, more) == Some(Halt::InsufficientShares),
{
}

/// An account has at most one withdrawal in the queue: queueing keeps the
/// queue's accounts distinct, and once an account has queued, a further
/// queued withdrawal of it aborts.
pub proof fn law_one_queued_withdrawal_per_account(
    v: VaultView,
    user: AccountId,
    shares: i128,
    now: u64,
    more: i128,
)
    requires
        v.queue_withdraw_halt(user, shares) is None,
    ensures
        (forall|i: int, j: int|
            0 <= i < j < v.pending_withdrawals.len() ==> (#[trigger] v.pending_withdrawals[i]).user
                != (#[trigger] v.pending_withdrawals[j]).user) ==> (forall|i: int, j: int|
            0 <= i < j < v.queued(user, shares, now).pending_withdrawals.len() ==> (
            #[trigger] v.queued(user, shares, now).pending_withdrawals[i]).user != (
            #[trigger] v.queued(user, shares, now).pending_withdrawals[j]).user),
        v.queued(user, shares, now).queue_withdraw_halt(user, more) is Some,
{
    let q = v.pending_withdrawals;
    let q1 = v.queued(user, shares, now).pending_withdrawals;
    lemma_first_queued_none(q, user, q.len() as int);
    assert forall|j: int| 0 <= j < q.len() implies q1[j].user != user by {
        assert(q1[j] == q[j]);
    }
    lemma_first_queued_at(q1, user, q.len() as int);
    assert forall|i: int, j: int|
        (forall|a: int, b: int|
            0 <= a < b < q.len() ==> (#[trigger] q[a]).user != (#[trigger] q[b]).user) && 0 <= i
            < j < q1.len() implies (#[trigger] q1[i]).user != (#[trigger] q1[j]).user by {
        assert(q1[i] == q[i]);
        if j < q.len() {
            assert(q1[j] == q[j]);
        }
    }
}

// ── Share conservation ─────────────────────────────────────────────

/// Shares waiting in the withdrawal queue.
pub open spec fn pending_shares(q: Seq<crate::types::QueuedWithdrawal>) -> int {
    shares_paid(q, q.len() as int)
}

/// Going from `old` to `new` changed no account's shares but `who`'s, and
/// the shares in circulation changed by exactly what `who` and the queue
/// gained: so `total_shares == sum of balances + queued shares` holds after
/// whenever it held before.
pub open spec fn shares_accounted(old: VaultView, new: VaultView, who: AccountId) -> bool {
    &&& forall|u: AccountId| u != who ==> #[trigger] new.balance_of(u) == old.balance_of(u)
    &&& new.total_shares - old.total_shares == (new.balance_of(who) - old.balance_of(who)) + (
    pending_shares(new.pending_withdrawals) - pending_shares(old.pending_withdrawals))
}

/// The running share total of a queue depends only on its first `k` entries.
proof fn lemma_shares_paid_agree(
    q1: Seq<crate::types::QueuedWithdrawal>,
    q2: Seq<crate::types::QueuedWithdrawal>,
    k: int,
)
    requires
        0 <= k <= q1.len(),
        k <= q2.len(),
        forall|i: int| 0 <= i < k ==> q1[i] == q2[i],
    ensures
        shares_paid(q1, k) == shares_paid(q2, k),
    decreases k,
{
    if k > 0 {
        lemma_shares_paid_agree(q1, q2, k - 1);
    }
}

/// Removing entry `i` removes its shares from every running total past it.
proof fn lemma_shares_paid_remove(q: Seq<crate::types::QueuedWithdrawal>, i: int, k: int)
    requires
        0 <= i < k <= q.len(),
    ensures
        shares_paid(q.remove(i), k - 1) == shares_paid(q, k) - q[i].shares,
    decreases k,
{
    if k == i + 1 {
        lemma_shares_paid_agree(q.remove(i), q, i);
    } else {
        lemma_shares_paid_remove(q, i, k - 1);
        assert(q.remove(i)[k - 2] == q[k - 1]);
    }
}

/// Skipping the first `k` entries removes their shares.
proof fn lemma_shares_paid_skip(q: Seq<crate::types::QueuedWithdrawal>, k: int, m: int)
    requires
        0 <= k <= q.len(),
        0 <= m <= q.len() - k,
    ensures
        shares_paid(q.skip(k), m) == shares_paid(q, k + m) - shares_paid(q, k),
    decreases m,
{
    if m > 0 {
        lemma_shares_paid_skip(q, k, m - 1);
        assert(q.skip(k)[m - 1] == q[k + m - 1]);
    }
}

/// Deposits, paid withdrawals, queued withdrawals and cancellations each
/// account for every share they mint, burn or move.
pub proof fn law_flows_conserve_shares(
    v: VaultView,
    user: AccountId,
    asset: AccountId,
    amount: i128,
    now: u64,
)
    ensures
        v.deposit_halt(user, asset, amount) is None ==> shares_accounted(
            v,
            v.deposited(user, asset, amount),
            user,
        ),
        v.withdraw_halt(user, amount) is None && !v.withdraw_is_queued(amount) ==> shares_accounted(
            v,
            v.withdrawn(user, amount),
            user,
        ),
        v.queue_withdraw_halt(user, amount) is None ==> shares_accounted(
            v,
            v.queued(user, amount, now),
            user,
        ),
        v.cancel_halt(user) is None && first_queued(v.pending_withdrawals, user) is Some
            ==> shares_accounted(
            v,
            v.cancelled(user, first_queued(v.pending_withdrawals, user)->0),
            user,
        ),
{
    let q = v.pending_withdrawals;
    if v.queue_withdraw_halt(user, amount) is None {
        let x = crate::types::QueuedWithdrawal { user, shares: amount, timestamp: now };
        lemma_shares_paid_agree(q.push(x), q, q.len() as int);
    }
    if v.cancel_halt(user) is None && first_queued(q, user) is Some {
        let i = first_queued(q, user)->0;
        lemma_shares_paid_remove(q, i, q.len() as int);
    }
}

/// Processing queued withdrawals changes no account's shares, and burns
/// exactly the shares that leave the queue.
pub proof fn law_processing_conserves_shares(v: VaultView, limit: u32)
    requires
        v.process_halt(limit) is None,
    ensures
        v.processed(limit).balances == v.balances,
        v.processed(limit).total_shares - v.total_shares == pending_shares(
            v.processed(limit).pending_withdrawals,
        ) - pending_shares(v.pending_withdrawals),
{
    let q = v.pending_withdrawals;
    let k = crate::model::processed_count(q.len() as int, limit);
    lemma_shares_paid_skip(q, k, q.len() - k);
    assert(v.processed(limit).total_shares == v.total_shares - shares_paid(q, k)) by {
        lemma_process_fits(q, k, v.total_shares as int, v.total_assets as int);
    }
}

/// The running totals that processing leaves are those it checked.
proof fn lemma_process_fits(q: Seq<crate::types::QueuedWithdrawal>, k: int, ts: int, ta: int)
    requires
        k >= 0,
        fits(ts),
        crate::model::process_defined(q, k, ts, ta),
    ensures
        fits(ts - shares_paid(q, k)),
{
}

/// A queued withdrawal of an account with nothing else queued, cancelled
/// right after, gives back exactly the queued shares and leaves the queue
/// as it was.
pub proof fn law_cancel_undoes_queue(v: VaultView, user: AccountId, shares: i128, now: u64)
    requires
        v.queue_withdraw_halt(user, shares) is None,
        forall|j: int| 0 <= j < v.pending_withdrawals.len() ==> v.pending_withdrawals[j].user != user,
    ensures
        ({
            let v1 = v.queued(user, shares, now);
            let i = v.pending_withdrawals.len() as int;
            let v2 = v1.cancelled(user, i);
            &&& first_queued(v1.pending_withdrawals, user) == Some(i)
            &&& v1.cancel_halt(user) is None
            &&& v2.balance_of(user) == v.balance_of(user)
            &&& v2.pending_withdrawals == v.pending_withdrawals
            &&& v2.total_shares == v.total_shares
            &&& v2.total_assets == v.total_assets
        }),
{
    let v1 = v.queued(user, shares, now);
    let i = v.pending_withdrawals.len() as int;
    lemma_first_queued_at(v1.pending_withdrawals, user, i);
    assert(v1.pending_withdrawals.remove(i) =~= v.pending_withdrawals);
}

// ── Governance ─────────────────────────────────────────────────────

/// A proposal that did not execute at once already counts its proposer's
/// approval: the proposer approving it again is refused.
pub proof fn law_proposer_cannot_approve_twice(
    v: VaultView,
    proposer: AccountId,
    action: ActionType,
    now: u64,
    later: u64,
)
    requires
        v.propose_verdict(proposer, action, now) == Verdict::Proceed,
        !v.propose_executes(action, now),
    ensures
        v.proposed(proposer, action, now).approve_verdict(proposer, v.next_proposal_id, later)
            == Verdict::Refuse(Error::AlreadyApproved),
{
    let v1 = v.proposed(proposer, action, now);
    let id = v.next_proposal_id;
    assert(v1.proposal_map()[id].approvals == seq![proposer]);
    assert(v1.proposal_map()[id].approvals[0] == proposer);
}

/// An executed proposal is final: any guardian's approval is refused.
pub proof fn law_executed_proposal_is_final(v: VaultView, guardian: AccountId, id: u64, now: u64)
    requires
        v.guardians is Some,
        v.guardian_list().contains(guardian),
        v.proposals is Some,
        v.proposal_map().contains_key(id),
        v.proposal_map()[id].executed,
    ensures
        v.approve_verdict(guardian, id, now) == Verdict::Refuse(Error::ProposalExecuted),
{
}

/// Under a positive timelock nothing executes at the moment it is proposed.
pub proof fn law_timelock_defers_execution(v: VaultView, action: ActionType, now: u64)
    requires
        v.timelock_duration > 0,
    ensures
        v.execute_verdict(action, now, now) == Verdict::Refuse(Error::TimelockNotElapsed),
        !v.propose_executes(action, now),
{
}

/// An approval that completes a proposal before its timelock ran out is
/// refused, whatever the action.
pub proof fn law_timelock_blocks_approval(v: VaultView, guardian: AccountId, id: u64, now: u64)
    requires
        v.guardians is Some,
        v.guardian_list().contains(guardian),
        v.proposals is Some,
        v.proposal_map().contains_key(id),
        !v.proposal_map()[id].executed,
        !v.proposal_map()[id].approvals.contains(guardian),
        v.approval_completes(id),
        !v.timelock_elapsed(v.proposal_map()[id].proposed_at, now),
    ensures
        v.approve_verdict(guardian, id, now) == Verdict::Refuse(Error::TimelockNotElapsed),
{
}

/// With one approval needed and no timelock, a guardian's proposal to pause
/// or resume takes effect at once and is recorded as executed.
pub proof fn law_single_guardian_pauses_at_once(v: VaultView, proposer: AccountId, state: bool, now: u64)
    requires
        v.guardians is Some,
        v.guardian_list().contains(proposer),
        v.next_proposal_id < u64::MAX,
        v.threshold <= 1,
        v.timelock_duration == 0,
    ensures
        v.propose_verdict(proposer, ActionType::SetPaused(state), now) == Verdict::Proceed,
        v.proposed(proposer, ActionType::SetPaused(state), now).paused == state,
        v.proposed(proposer, ActionType::SetPaused(state), now).proposal_map()[v.next_proposal_id].executed,
{
}

/// An approval that does not complete a proposal only records the approval:
/// nothing but the proposal changes.
pub proof fn law_incomplete_approval_only_records(v: VaultView, guardian: AccountId, id: u64, now: u64)
    requires
        v.approve_verdict(guardian, id, now) == Verdict::Proceed,
        !v.approval_completes(id),
    ensures
        v.approved(guardian, id, now) == (VaultView {
            proposals: v.approved(guardian, id, now).proposals,
            ..v
        }),
        !v.approved(guardian, id, now).proposal_map()[id].executed,
        v.approved(guardian, id, now).proposal_map()[id].approvals == v.proposal_map()[id].approvals.push(
            guardian,
        ),
{
}

// ── Strategy registry ──────────────────────────────────────────────

/// The strategy registry never names a strategy twice: initialisation
/// leaves it empty, registering a strategy goes through only for one that is
/// not registered yet, and removing one keeps the others distinct.
pub proof fn law_registry_has_no_duplicates(
    v: VaultView,
    strategy: AccountId,
    now: u64,
    i: int,
    admin: AccountId,
    asset: AccountId,
    oracle: AccountId,
    treasury: AccountId,
    fee_percentage: u32,
    guardians: Seq<AccountId>,
    threshold: u32,
)
    ensures
        v.initialized(
            admin,
            asset,
            oracle,
            treasury,
            fee_percentage,
            guardians,
            threshold,
        ).strategies.no_duplicates(),
        v.strategies.no_duplicates() && v.add_strategy_verdict(strategy) == Verdict::Proceed
            ==> v.strategy_added(strategy, now).strategies.no_duplicates(),
        v.strategies.no_duplicates() && 0 <= i < v.strategies.len()
            ==> v.strategies.remove(i).no_duplicates(),
{
    let s = v.strategies;
    if s.no_duplicates() && v.add_strategy_verdict(strategy) == Verdict::Proceed {
        let t = s.push(strategy);
        assert forall|a: int, b: int| 0 <= a < t.len() && 0 <= b < t.len() && a != b implies t[a]
            != t[b] by {
            if a < s.len() && b < s.len() {
                assert(t[a] == s[a] && t[b] == s[b]);
            } else if a < s.len() {
                assert(t[a] == s[a]);
                assert(s.contains(s[a]));
            } else {
                assert(t[b] == s[b]);
                assert(s.contains(s[b]));
            }
        }
    }
    if s.no_duplicates() && 0 <= i < s.len() {
        let t = s.remove(i);
        assert forall|a: int, b: int| 0 <= a < t.len() && 0 <= b < t.len() && a != b implies t[a]
            != t[b] by {
            let a1 = if a < i { a } else { a + 1 };
            let b1 = if b < i { b } else { b + 1 };
            assert(t[a] == s[a1] && t[b] == s[b1]);
        }
    }
}

/// Every proposal that is stored takes the next id and moves the counter
/// past it, so successive proposals get distinct, increasing ids; the new
/// proposal counts its proposer's approval, and earlier proposals stay as
/// they were.
pub proof fn law_proposals_take_increasing_ids(
    v: VaultView,
    proposer: AccountId,
    action: ActionType,
    now: u64,
)
    requires
        v.propose_verdict(proposer, action, now) == Verdict::Proceed,
    ensures
        ({
            let id = v.next_proposal_id;
            let after = v.proposed(proposer, action, now);
            &&& after.next_proposal_id == id + 1
            &&& after.proposal_map().contains_key(id)
            &&& after.proposal_map()[id].id == id
            &&& after.proposal_map()[id].proposer == proposer
            &&& after.proposal_map()[id].approvals == seq![proposer]
            &&& after.proposal_map()[id].proposed_at == now
            &&& forall|k: u64|
                k != id && #[trigger] v.proposal_map().contains_key(k) ==> after.proposal_map().contains_key(k)
                    && after.proposal_map()[k] == v.proposal_map()[k]
        }),
{
}

// ── Allocations and rebalancing ────────────────────────────────────

/// Allocations that the oracle gets stored name only registered strategies,
/// each at most once, are each non-negative, and are either empty or sum to
/// one hundred percent.
pub proof fn law_stored_allocations_are_valid(
    v: VaultView,
    allocations: Seq<(AccountId, i128)>,
    timestamp: u64,
    now: u64,
)
    requires
        v.oracle_data_error(allocations, timestamp, now) is None,
    ensures
        forall|i: int|
            0 <= i < allocations.len() ==> v.strategies.contains((#[trigger] allocations[i]).0)
                && allocations[i].1 >= 0,
        forall|i: int, j: int|
            0 <= i < j < allocations.len() ==> (#[trigger] allocations[i]).0 != (
            #[trigger] allocations[j]).0,
        allocations.len() == 0 || allocation_sum(allocations) == BPS_SCALE,
{
    assert(first_invalid_allocation(v.strategies, allocations) is None);
    lemma_valid_allocations_nonneg(v.strategies, allocations);
}

/// The move a rebalance makes brings the strategy exactly to its target,
/// and moves a positive amount when it moves anything.
pub proof fn law_rebalance_move_reaches_target(total_assets: i128, bps: i128, current: i128)
    ensures
        ({
            let target = bps_target(total_assets as int, bps as int);
            match rebalance_move_of(total_assets, bps, current) {
                Some(Move::Deposit(d)) => d > 0 && current + d == target,
                Some(Move::Withdraw(d)) => d > 0 && current - d == target,
                Some(Move::Hold) => current == target,
                None => true,
            }
        }),
{
}

/// A strategy exactly on its target is healthy.
pub proof fn law_on_target_is_healthy(expected: int)
    ensures
        !deviates(expected, expected),
{
}

// ── Harvesting ──────────────────────────────────────────────────────

/// Rounding toward zero keeps the order of numerators over a positive divisor.
proof fn lemma_trunc_div_monotone(x: int, y: int, d: int)
    requires
        x <= y,
        d > 0,
    ensures
        trunc_div(x, d) <= trunc_div(y, d),
{
    if x >= 0 {
        vstd::arithmetic::div_mod::lemma_div_is_ordered(x, y, d);
    } else if y < 0 {
        vstd::arithmetic::div_mod::lemma_div_is_ordered(-y, -x, d);
    } else {
        vstd::arithmetic::div_mod::lemma_div_pos_is_pos(-x, d);
        if y > 0 {
            vstd::arithmetic::div_mod::lemma_div_pos_is_pos(y, d);
        }
    }
}

/// A harvest that goes through never lowers the share price: the yield
/// raises the vault's assets and leaves the shares as they were.
pub proof fn law_harvest_never_lowers_share_price(v: VaultView, balances: Seq<i128>)
    requires
        v.harvest_halt(balances) is None,
        v.strategies.len() > 0,
        v.total_shares >= 0,
    ensures
        v.harvested(balances).total_shares == v.total_shares,
        v.harvested(balances).total_assets >= v.total_assets,
        share_price_of(v.harvested(balances).total_assets as int, v.total_shares as int)
            >= share_price_of(v.total_assets as int, v.total_shares as int),
{
    let after = v.harvested(balances).total_assets as int;
    let before = v.total_assets as int;
    if v.total_shares > 0 {
        assert(before * PRICE_SCALE <= after * PRICE_SCALE) by (nonlinear_arith)
            requires
                before <= after,
                PRICE_SCALE > 0,
        ;
        lemma_trunc_div_monotone(before * PRICE_SCALE, after * PRICE_SCALE, v.total_shares as int);
    }
}

// ── Versions ────────────────────────────────────────────────────────

/// Every entry point that checks the storage version aborts while the
/// stored version is not one: deposits, withdrawals, harvests, new deposit
/// caps, strategy registration and rebalancing.
pub proof fn law_version_gates_entry_points(
    v: VaultView,
    user: AccountId,
    asset: AccountId,
    amount: i128,
    balances: Seq<i128>,
    strategy: AccountId,
    now: u64,
)
    requires
        v.version != 1,
    ensures
        v.deposit_halt(user, asset, amount) == Some(Halt::VersionMismatch),
        v.withdraw_halt(user, amount) == Some(Halt::VersionMismatch),
        v.harvest_halt(balances) == Some(Halt::VersionMismatch),
        v.deposit_cap_halt() == Some(Halt::VersionMismatch),
        v.add_strategy_verdict(strategy) == Verdict::Halt(Halt::VersionMismatch),
        v.rebalance_verdict(now) == Verdict::Halt(Halt::VersionMismatch),
{
}

// ── What each operation is for ─────────────────────────────────────

/// How far `actual` lies from a positive `expected`, in basis points of
/// `expected`, rounded down.
pub open spec fn deviation_bps(expected: int, actual: int) -> int {
    let d = if actual >= expected {
        actual - expected
    } else {
        expected - actual
    };
    (d * 10_000) / expected
}

/// The slippage check of one strategy after a rebalance judges how far its
/// balance lies from its positive target, above or below alike: it passes
/// only within `max_slippage_bps`, and a breach reports the target, the
/// balance and that distance, which exceeds the bound.
pub proof fn law_slippage_is_distance_from_target(
    total_assets: i128,
    bps: i128,
    actual: i128,
    max_slippage_bps: u32,
)
    ensures
        ({
            let e = bps_target(total_assets as int, bps as int);
            e > 0 ==> match slippage_verdict(total_assets, bps, actual, max_slippage_bps) {
                Some(Ok(())) => deviation_bps(e, actual as int) <= max_slippage_bps,
                Some(Err(b)) => b == (SlippageBreach {
                    expected: e as i128,
                    actual,
                    slippage_bps: deviation_bps(e, actual as int) as i128,
                }) && deviation_bps(e, actual as int) > max_slippage_bps,
                None => true,
            }
        }),
        ({
            let e = bps_target(total_assets as int, bps as int);
            let d = if actual >= e {
                actual - e
            } else {
                e - actual
            };
            &&& crate::math::bps_target_defined(total_assets as int, bps as int) && e <= 0
                ==> slippage_verdict(total_assets, bps, actual, max_slippage_bps) == Some(
                Ok::<(), SlippageBreach>(()),
            )
            &&& crate::math::bps_target_defined(total_assets as int, bps as int) && fits(d)
                && fits(d * 10_000) ==> slippage_verdict(
                total_assets,
                bps,
                actual,
                max_slippage_bps,
            ) is Some
        }),
{
    let e = bps_target(total_assets as int, bps as int);
    if e > 0 {
        let d = if actual >= e {
            actual - e
        } else {
            e - actual
        };
        assert(d * 10_000 >= 0) by (nonlinear_arith)
            requires
                d >= 0,
        ;
    }
}

/// The slippage check is symmetric: a balance `d` above the target and one
/// `d` below it get the same verdict on whether the rebalance stands.
pub proof fn law_slippage_is_symmetric(
    total_assets: i128,
    bps: i128,
    above: i128,
    below: i128,
    max_slippage_bps: u32,
)
    requires
        above - bps_target(total_assets as int, bps as int) == bps_target(
            total_assets as int,
            bps as int,
        ) - below,
    ensures
        (slippage_verdict(total_assets, bps, above, max_slippage_bps) == Some(
            Ok::<(), SlippageBreach>(()),
        )) == (slippage_verdict(total_assets, bps, below, max_slippage_bps) == Some(
            Ok::<(), SlippageBreach>(()),
        )),
{
}

/// A rebalance stands only when every strategy with a positive target ends
/// within `max_slippage_bps` of it.
pub proof fn law_rebalance_stands_only_within_bounds(
    entries: Seq<(AccountId, i128)>,
    total_assets: i128,
    max_slippage_bps: u32,
    finals: Seq<i128>,
)
    requires
        finals.len() == entries.len(),
        rebalance_outcome(entries, total_assets, max_slippage_bps, finals) == Some(
            Ok::<(), (AccountId, SlippageBreach)>(()),
        ),
    ensures
        forall|i: int|
            0 <= i < entries.len() && bps_target(total_assets as int, (#[trigger] entries[i]).1 as int)
                > 0 ==> deviation_bps(
                bps_target(total_assets as int, entries[i].1 as int),
                finals[i] as int,
            ) <= max_slippage_bps,
{
    assert(first_unsettled(entries, total_assets, max_slippage_bps, finals) is None);
    lemma_all_pass(entries, total_assets, max_slippage_bps, finals, entries.len() as int);
    assert forall|i: int|
        0 <= i < entries.len() && bps_target(total_assets as int, (#[trigger] entries[i]).1 as int)
            > 0 implies deviation_bps(
        bps_target(total_assets as int, entries[i].1 as int),
        finals[i] as int,
    ) <= max_slippage_bps by {
        assert(slippage_passes(entries, total_assets, max_slippage_bps, finals, i));
        law_slippage_is_distance_from_target(total_assets, entries[i].1, finals[i], max_slippage_bps);
    }
}

/// Without a first failing entry, the first `k` entries all pass.
proof fn lemma_all_pass(
    entries: Seq<(AccountId, i128)>,
    total_assets: i128,
    max_slippage_bps: u32,
    finals: Seq<i128>,
    k: int,
)
    requires
        0 <= k <= entries.len(),
        first_unsettled(entries, total_assets, max_slippage_bps, finals) is None,
    ensures
        forall|j: int|
            0 <= j < k ==> slippage_passes(entries, total_assets, max_slippage_bps, finals, j),
    decreases k,
{
    if k > 0 {
        lemma_all_pass(entries, total_assets, max_slippage_bps, finals, k - 1);
        if !slippage_passes(entries, total_assets, max_slippage_bps, finals, k - 1) {
            assert(0 <= k - 1 < entries.len() && !slippage_passes(
                entries,
                total_assets,
                max_slippage_bps,
                finals,
                k - 1,
            ) && forall|j: int|
                0 <= j < k - 1 ==> slippage_passes(
                    entries,
                    total_assets,
                    max_slippage_bps,
                    finals,
                    j,
                ));
        }
    }
}

/// An approval that goes through and brings a pending proposal's approvals
/// to the threshold executes its action, however many guardians there are;
/// one that stays below the threshold only records the approval.
pub proof fn law_threshold_approvals_execute(v: VaultView, guardian: AccountId, id: u64, now: u64)
    requires
        v.approve_verdict(guardian, id, now) == Verdict::Proceed,
    ensures
        ({
            let p = v.proposal_map()[id];
            let after = v.approved(guardian, id, now);
            &&& after.proposal_map()[id].approvals == p.approvals.push(guardian)
            &&& p.approvals.len() + 1 >= v.threshold ==> {
                &&& after.proposal_map()[id].executed == !(p.action is Rebalance)
                &&& (p.action matches ActionType::SetPaused(state) ==> after.paused == state)
                &&& (p.action matches ActionType::AddStrategy(s) ==> after.strategies
                    == v.strategies.push(s))
            }
            &&& p.approvals.len() + 1 < v.threshold ==> {
                &&& !after.proposal_map()[id].executed
                &&& after.paused == v.paused
                &&& after.strategies == v.strategies
            }
        }),
{
}

/// A withdrawal that goes through never pays out more assets than the
/// per-transaction cap, whether it is paid at once or queued.
pub proof fn law_withdrawal_within_cap(v: VaultView, from: AccountId, shares: i128)
    requires
        v.withdraw_halt(from, shares) is None,
    ensures
        assets_for(shares as int, v.total_shares as int, v.total_assets as int)
            <= v.max_withdraw_per_tx,
{
}

/// A deposit credits the depositor exactly the shares its assets convert to
/// at the current totals, and those shares are worth no more than the
/// assets deposited: nobody else is diluted.
pub proof fn law_deposit_mints_converted_shares(
    v: VaultView,
    from: AccountId,
    asset: AccountId,
    amount: i128,
)
    requires
        v.deposit_halt(from, asset, amount) is None,
    ensures
        ({
            let minted = shares_for(amount as int, v.total_shares as int, v.total_assets as int);
            let after = v.deposited(from, asset, amount);
            &&& after.balance_of(from) == v.balance_of(from) + minted
            &&& after.asset_balance_of(asset, from) == v.asset_balance_of(asset, from) + minted
            &&& after.total_shares == v.total_shares + minted
            &&& after.total_assets == v.total_assets + amount
            &&& (v.total_shares > 0 && v.total_assets > 0) ==> (after.balance_of(from)
                - v.balance_of(from)) * v.total_assets <= amount * v.total_shares
        }),
{
    if v.total_shares > 0 && v.total_assets > 0 {
        law_deposit_never_dilutes(amount as int, v.total_shares as int, v.total_assets as int);
    }
}

/// Validation accepts every allocation that is one: strategies registered
/// and each named once, values non-negative, and either none at all or a
/// total of one hundred percent.  Nothing else is demanded of it.
pub proof fn law_valid_allocations_are_accepted(
    registered: Seq<AccountId>,
    allocs: Seq<(AccountId, i128)>,
)
    requires
        forall|i: int|
            0 <= i < allocs.len() ==> registered.contains((#[trigger] allocs[i]).0) && allocs[i].1
                >= 0,
        forall|i: int, j: int|
            0 <= i < j < allocs.len() ==> (#[trigger] allocs[i]).0 != (#[trigger] allocs[j]).0,
        allocs.len() == 0 || allocation_sum(allocs) == BPS_SCALE,
    ensures
        allocation_error(registered, allocs) is None,
{
    lemma_valid_entries_pass(registered, allocs);
}

/// Registered, non-negative, distinct entries have no invalid entry.
proof fn lemma_valid_entries_pass(registered: Seq<AccountId>, allocs: Seq<(AccountId, i128)>)
    requires
        forall|i: int|
            0 <= i < allocs.len() ==> registered.contains((#[trigger] allocs[i]).0) && allocs[i].1
                >= 0,
        forall|i: int, j: int|
            0 <= i < j < allocs.len() ==> (#[trigger] allocs[i]).0 != (#[trigger] allocs[j]).0,
    ensures
        first_invalid_allocation(registered, allocs) is None,
    decreases allocs.len(),
{
    if allocs.len() > 0 {
        let init = allocs.drop_last();
        let last = allocs.last();
        assert forall|i: int| 0 <= i < init.len() implies registered.contains(
            (#[trigger] init[i]).0,
        ) && init[i].1 >= 0 by {
            assert(init[i] == allocs[i]);
        }
        assert forall|i: int, j: int| 0 <= i < j < init.len() implies (#[trigger] init[i]).0 != (
        #[trigger] init[j]).0 by {
            assert(init[i] == allocs[i] && init[j] == allocs[j]);
        }
        lemma_valid_entries_pass(registered, init);
        assert(allocs[allocs.len() - 1] == last);
        if names_strategy(init, last.0) {
            let k = choose|k: int| 0 <= k < init.len() && #[trigger] init[k].0 == last.0;
            assert(init[k] == allocs[k]);
            assert(allocs[k].0 != allocs[allocs.len() - 1].0);
        }
    }
}

/// A harvest adds the strategies' total yield to the vault's assets when it
/// is positive, and nothing otherwise; no other storage changes.
pub proof fn law_harvest_adds_positive_yield(v: VaultView, balances: Seq<i128>)
    requires
        v.harvest_halt(balances) is None,
        v.strategies.len() > 0,
    ensures
        v.harvested(balances).total_assets == v.total_assets + if crate::strategies::sum_of(
            balances,
        ) > 0 {
            crate::strategies::sum_of(balances)
        } else {
            0
        },
        v.harvested(balances) == (VaultView { total_assets: v.harvested(balances).total_assets, ..v }),
{
}

/// A withdrawal whose assets do not exceed the queue threshold is paid at
/// once: it burns exactly the withdrawn shares from the account and from
/// the shares in circulation, and pays out their value at the current rate.
pub proof fn law_paid_withdrawal_burns_its_shares(v: VaultView, from: AccountId, shares: i128)
    requires
        v.withdraw_halt(from, shares) is None,
        assets_for(shares as int, v.total_shares as int, v.total_assets as int)
            <= v.withdraw_queue_threshold,
    ensures
        !v.withdraw_is_queued(shares),
        v.withdrawn(from, shares).balance_of(from) == v.balance_of(from) - shares,
        v.withdrawn(from, shares).total_shares == v.total_shares - shares,
        v.withdrawn(from, shares).total_assets == v.total_assets - assets_for(
            shares as int,
            v.total_shares as int,
            v.total_assets as int,
        ),
        forall|u: AccountId| u != from ==> #[trigger] v.withdrawn(from, shares).balance_of(u)
            == v.balance_of(u),
{
}

/// A queued withdrawal moves the shares from the account to the end of the
/// queue, recording the account, the shares and the time; the shares in
/// circulation and the assets stay until it is processed.
pub proof fn law_queued_withdrawal_waits_at_the_end(
    v: VaultView,
    from: AccountId,
    shares: i128,
    now: u64,
)
    requires
        v.queue_withdraw_halt(from, shares) is None,
    ensures
        shares > 0,
        v.queued(from, shares, now).balance_of(from) == v.balance_of(from) - shares,
        v.queued(from, shares, now).pending_withdrawals == v.pending_withdrawals.push(
            crate::types::QueuedWithdrawal { user: from, shares, timestamp: now },
        ),
        v.queued(from, shares, now).total_shares == v.total_shares,
        v.queued(from, shares, now).total_assets == v.total_assets,
{
}

} // verus!
