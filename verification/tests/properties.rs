use volatility_shield::math::{
    checked_convert_to_assets, checked_convert_to_shares, convert_to_assets, convert_to_shares,
    deduct_fees, share_price, target_allocation,
};
use volatility_shield::allocation::{
    check_rebalance, deviates_from, lookup_allocation, validate_allocations, SlippageBreach,
};
use volatility_shield::mock_strategy::MockStrategy;
use volatility_shield::types::{
    ActionType, Effect, Error, Halt, RebalanceOrder, StrategyHealth, Verdict, WithdrawOutcome,
};
use volatility_shield::vault::VolatilityShield;

const ADMIN: u64 = 1;
const ASSET: u64 = 2;
const ORACLE: u64 = 3;
const TREASURY: u64 = 4;
const GUARDIAN: u64 = 5;
const GUARDIAN3: u64 = 6;
const SECOND_ASSET: u64 = 7;
const ALICE: u64 = 10;
const BOB: u64 = 11;
const CAROL: u64 = 12;
const STRATEGY: u64 = 20;
const STRATEGY2: u64 = 21;

fn fresh(guardians: Vec<u64>, threshold: u32) -> VolatilityShield {
    let mut v = VolatilityShield::new();
    assert_eq!(v.init(ADMIN, ASSET, ORACLE, TREASURY, 0, guardians, threshold), Ok(()));
    v
}

fn deposit_in(v: &mut VolatilityShield, user: u64, asset: u64, amount: i128) -> i128 {
    assert_eq!(v.deposit_halt(user, asset, amount), None);
    v.deposit(user, asset, amount).shares
}

fn add_strategy(v: &mut VolatilityShield, s: u64) {
    assert!(v.propose_action(ADMIN, ActionType::AddStrategy(s), 0).is_ok());
}

fn outstanding(v: &VolatilityShield, users: &[u64]) -> i128 {
    let balances: i128 = users.iter().map(|u| v.balance(*u)).sum();
    let queued: i128 = v.get_pending_withdrawals().iter().map(|q| q.shares).sum();
    balances + queued
}

// ── Conversion laws ──────────────────────────────────────────────

#[test]
fn empty_vault_converts_one_for_one() {
    let v = fresh(vec![ADMIN], 1);
    for amount in [0i128, 1, 7, 999_999_999] {
        assert_eq!(v.convert_to_shares(amount), amount);
        assert_eq!(v.convert_to_assets(amount), amount);
    }
}

#[test]
fn round_trip_rounds_down_by_at_most_one_unit() {
    let mut v = fresh(vec![ADMIN], 1);
    v.set_total_assets(2000);
    v.set_total_shares(1000);
    for amount in [1i128, 2, 3, 17, 999, 1_000_001, 999_999_999] {
        let shares = v.convert_to_shares(amount);
        let back = v.convert_to_assets(shares);
        assert!(back <= amount);
        assert!(amount - back <= 1);
    }
}

#[test]
fn round_trip_loss_stays_below_one_share_plus_one() {
    // 7 assets per 3 shares: loss * 3 < 7 + 3.
    for amount in 0i128..200 {
        let s = convert_to_shares(amount, 3, 7);
        let back = convert_to_assets(s, 3, 7);
        assert!(back <= amount);
        assert!((amount - back) * 3 < 10);
    }
}

#[test]
fn deposits_never_dilute_and_withdrawals_never_overpay() {
    for amount in 0i128..100 {
        let s = convert_to_shares(amount, 300, 1000);
        assert!(s * 1000 <= amount * 300);
        let a = convert_to_assets(amount, 300, 1000);
        assert!(a * 300 <= amount * 1000);
    }
}

#[test]
fn conversions_refuse_negative_and_overflowing_inputs() {
    assert_eq!(checked_convert_to_shares(-5, 10, 10), None);
    assert_eq!(checked_convert_to_assets(-5, 10, 10), None);
    assert_eq!(checked_convert_to_shares(i128::MAX, 2, 1), None);
    assert_eq!(checked_convert_to_shares(10, 0, 5), Some(10));
    assert_eq!(checked_convert_to_assets(10, 4, 10), Some(25));
}

#[test]
fn share_price_has_nine_decimals() {
    assert_eq!(share_price(2000, 1000), 2_000_000_000);
    assert_eq!(share_price(5, 0), 1_000_000_000);
    assert_eq!(share_price(1, 3), 333_333_333);
    let mut v = fresh(vec![ADMIN], 1);
    v.set_total_assets(1500);
    v.set_total_shares(1000);
    assert_eq!(v.share_price_halt(), None);
    assert_eq!(v.get_share_price(), 1_500_000_000);
}

#[test]
fn fees_are_basis_points_rounded_toward_zero() {
    assert_eq!(deduct_fees(1000, 0), 1000);
    assert_eq!(deduct_fees(1000, 500), 950);
    assert_eq!(deduct_fees(999, 30), 997);
    assert_eq!(deduct_fees(-1000, 500), -950);
}

#[test]
fn rebalance_delta_and_targets() {
    assert_eq!(VolatilityShield::calc_rebalance_delta(300, 1000), 700);
    assert_eq!(VolatilityShield::calc_rebalance_delta(1000, 300), -700);
    assert_eq!(VolatilityShield::rebalance_delta_halt(i128::MIN, 1), Some(Halt::Overflow));
    assert_eq!(target_allocation(1000, 3000), 300);
    assert_eq!(target_allocation(999, 3333), 332);
}

// ── Deposits and withdrawals ─────────────────────────────────────

#[test]
fn test_deposit_withdraw_invariant() {
    for amount in [1i128, 2, 500, 999_999] {
        let mut v = fresh(vec![ADMIN], 1);
        let shares = deposit_in(&mut v, ALICE, ASSET, amount);
        assert_eq!(v.balance(ALICE), shares);
        assert_eq!(v.total_shares(), shares);
        assert_eq!(v.withdraw_halt(ALICE, shares), None);
        v.withdraw(ALICE, shares, 0);
        assert_eq!(v.balance(ALICE), 0);
        assert_eq!(v.total_shares(), 0);
        assert_eq!(v.total_assets(), 0);
    }
}

#[test]
fn test_total_shares_matches_sum_of_balances() {
    let mut v = fresh(vec![ADMIN], 1);
    let users = [ALICE, BOB, CAROL];
    let mut total = 0;
    for (user, amount) in users.iter().zip([100i128, 250, 999]) {
        total += deposit_in(&mut v, *user, ASSET, amount);
    }
    assert_eq!(v.total_shares(), total);
    assert_eq!(outstanding(&v, &users), v.total_shares());
}

#[test]
fn every_flow_keeps_shares_accounted_for() {
    let mut v = fresh(vec![ADMIN], 1);
    let users = [ALICE, BOB];
    deposit_in(&mut v, ALICE, ASSET, 1000);
    deposit_in(&mut v, BOB, ASSET, 400);
    assert_eq!(outstanding(&v, &users), v.total_shares());
    v.set_withdraw_queue_threshold(300);
    assert_eq!(v.withdraw_halt(ALICE, 500), None);
    assert!(matches!(v.withdraw(ALICE, 500, 1), WithdrawOutcome::Queued(_)));
    assert_eq!(outstanding(&v, &users), v.total_shares());
    assert_eq!(v.withdraw_halt(BOB, 100), None);
    assert!(matches!(v.withdraw(BOB, 100, 2), WithdrawOutcome::Paid { .. }));
    assert_eq!(outstanding(&v, &users), v.total_shares());
    assert_eq!(v.cancel_halt(ALICE), None);
    assert!(v.cancel_queued_withdrawal(ALICE).is_ok());
    assert_eq!(outstanding(&v, &users), v.total_shares());
    assert_eq!(v.withdraw_halt(ALICE, 400), None);
    v.withdraw(ALICE, 400, 3);
    assert_eq!(v.process_halt(5), None);
    v.process_queued_withdrawals(5);
    assert_eq!(outstanding(&v, &users), v.total_shares());
}

#[test]
fn paused_vault_halts_every_flow() {
    let mut v = fresh(vec![ADMIN], 1);
    deposit_in(&mut v, ALICE, ASSET, 100);
    v.set_paused(true);
    assert_eq!(v.deposit_halt(ALICE, ASSET, 10), Some(Halt::Paused));
    assert_eq!(v.withdraw_halt(ALICE, 10), Some(Halt::Paused));
    assert_eq!(v.queue_withdraw_halt(ALICE, 10), Some(Halt::Paused));
    v.set_paused(false);
    assert_eq!(v.withdraw_halt(ALICE, 10), None);
}

#[test]
fn deposit_caps_are_respected() {
    let mut v = fresh(vec![ADMIN], 1);
    assert_eq!(v.deposit_cap_halt(), None);
    v.set_deposit_cap(500, 800);
    deposit_in(&mut v, ALICE, ASSET, 500);
    assert_eq!(v.deposit_halt(ALICE, ASSET, 1), Some(Halt::UserDepositCapExceeded));
    assert_eq!(v.deposit_halt(BOB, ASSET, 301), Some(Halt::GlobalDepositCapExceeded));
    deposit_in(&mut v, BOB, ASSET, 300);
    assert_eq!(v.total_assets(), 800);
}

#[test]
fn migrated_vault_gates_versioned_entry_points() {
    let mut v = fresh(vec![ADMIN], 1);
    add_strategy(&mut v, STRATEGY);
    assert_eq!(deposit_in(&mut v, ALICE, ASSET, 100), 100);
    assert_eq!(v.migrate_halt(2), None);
    v.migrate(2);
    assert_eq!(v.deposit_halt(ALICE, ASSET, 10), Some(Halt::VersionMismatch));
    assert_eq!(v.withdraw_halt(ALICE, 10), Some(Halt::VersionMismatch));
    assert_eq!(v.harvest_halt(&vec![5]), Some(Halt::VersionMismatch));
    assert_eq!(v.deposit_cap_halt(), Some(Halt::VersionMismatch));
    assert_eq!(
        v.execute_verdict(ActionType::AddStrategy(STRATEGY2), 0, 0),
        Verdict::Halt(Halt::VersionMismatch)
    );
    assert_eq!(
        v.execute_verdict(ActionType::Rebalance(100), 0, 0),
        Verdict::Halt(Halt::VersionMismatch)
    );
    // Flows that do not check the version still go through.
    assert_eq!(v.queue_withdraw_halt(ALICE, 10), Some(Halt::BelowQueueThreshold));
}

#[test]
fn halts_name_their_reason() {
    let mut v = VolatilityShield::new();
    assert_eq!(v.deposit_halt(ALICE, ASSET, 10), Some(Halt::VersionMismatch));
    assert_eq!(v.process_halt(1), Some(Halt::NotInitialized));
    assert_eq!(v.migrate_halt(2), Some(Halt::NotInitialized));
    assert_eq!(v.check_version(1), Some(Halt::VersionMismatch));
    assert_eq!(v.init(ADMIN, ASSET, ORACLE, TREASURY, 0, vec![ADMIN], 1), Ok(()));
    assert_eq!(v.check_version(1), None);
    assert_eq!(v.deposit_halt(ALICE, SECOND_ASSET, 10), Some(Halt::AssetNotAccepted));
    assert_eq!(v.withdraw_halt(ALICE, 0), Some(Halt::NonPositiveShares));
    assert_eq!(v.queue_withdraw_halt(ALICE, -3), Some(Halt::NonPositiveShares));
    v.set_balance(ALICE, 10);
    assert_eq!(v.queue_withdraw_halt(ALICE, 5), Some(Halt::BelowQueueThreshold));
    assert_eq!(v.queue_threshold_halt(-1), Some(Halt::NegativeThreshold));
    assert_eq!(v.migrate_halt(1), Some(Halt::VersionNotNewer));
    assert_eq!(v.migrate_halt(2), None);
    v.migrate(2);
    assert_eq!(v.version(), 2);
    assert_eq!(v.deposit_halt(ALICE, ASSET, 10), Some(Halt::VersionMismatch));
    v.migrate(3);
    let mut w = fresh(vec![ADMIN], 1);
    w.set_total_shares(i128::MAX);
    w.set_total_assets(1);
    assert_eq!(w.deposit_halt(ALICE, ASSET, 2), Some(Halt::Overflow));
    assert_eq!(w.take_fees_halt(1), None);
}

#[test]
fn queue_then_cancel_restores_the_account() {
    let mut v = fresh(vec![ADMIN], 1);
    deposit_in(&mut v, ALICE, ASSET, 900);
    v.set_withdraw_queue_threshold(100);
    let before = v.get_pending_withdrawals();
    assert_eq!(v.queue_withdraw_halt(ALICE, 300), None);
    v.queue_withdraw(ALICE, 300, 42);
    assert_eq!(v.balance(ALICE), 600);
    assert!(v.cancel_queued_withdrawal(ALICE).is_ok());
    assert_eq!(v.balance(ALICE), 900);
    assert_eq!(v.get_pending_withdrawals(), before);
    assert_eq!(v.total_shares(), 900);
}

#[test]
fn processing_pays_at_the_rate_before_processing() {
    let mut v = fresh(vec![ADMIN], 1);
    v.set_total_shares(1000);
    v.set_total_assets(3000);
    v.set_balance(ALICE, 100);
    v.set_balance(BOB, 100);
    v.set_withdraw_queue_threshold(0);
    v.queue_withdraw(ALICE, 100, 1);
    v.queue_withdraw(BOB, 100, 2);
    assert_eq!(v.process_halt(10), None);
    let payouts = v.process_queued_withdrawals(10);
    assert_eq!(payouts.len(), 2);
    assert_eq!((payouts[0].assets, payouts[0].total_shares, payouts[0].total_assets), (300, 900, 2700));
    assert_eq!((payouts[1].assets, payouts[1].total_shares, payouts[1].total_assets), (300, 800, 2400));
    assert_eq!(v.get_pending_withdrawals().len(), 0);
}

// ── Multi-asset accounting ───────────────────────────────────────

#[test]
fn deposits_are_tracked_per_asset() {
    let mut v = fresh(vec![ADMIN], 1);
    v.add_accepted_asset(SECOND_ASSET);
    v.add_accepted_asset(SECOND_ASSET);
    assert_eq!(v.get_accepted_assets(), vec![ASSET, SECOND_ASSET]);
    assert!(v.is_accepted_asset(SECOND_ASSET));
    deposit_in(&mut v, ALICE, ASSET, 100);
    deposit_in(&mut v, ALICE, SECOND_ASSET, 50);
    assert_eq!(v.get_asset_balance(ASSET, ALICE), 100);
    assert_eq!(v.get_asset_balance(SECOND_ASSET, ALICE), 50);
    assert_eq!(v.get_asset_balance(SECOND_ASSET, BOB), 0);
    assert_eq!(v.get_asset_total(SECOND_ASSET), 50);
    assert_eq!(v.get_all_asset_totals(), vec![(ASSET, 100), (SECOND_ASSET, 50)]);
    assert_eq!(v.balance(ALICE), 150);
}

// ── Governance ───────────────────────────────────────────────────

#[test]
fn executed_proposal_is_final() {
    let mut v = fresh(vec![ADMIN, GUARDIAN], 1);
    let (id, _) = v.propose_action(ADMIN, ActionType::SetPaused(true), 0).unwrap();
    assert!(v.is_paused());
    assert_eq!(v.approve_verdict(GUARDIAN, id, 0), Verdict::Refuse(Error::ProposalExecuted));
}

#[test]
fn incomplete_approval_only_records_it() {
    let mut v = fresh(vec![ADMIN, GUARDIAN, GUARDIAN3], 3);
    let (id, _) = v.propose_action(ADMIN, ActionType::SetPaused(true), 0).unwrap();
    assert!(v.approve_action(GUARDIAN, id, 0).is_ok());
    assert!(!v.is_paused());
    let p = v.proposals.as_ref().unwrap().get(&id).unwrap();
    assert_eq!(p.approvals, vec![ADMIN, GUARDIAN]);
    assert!(!p.executed);
    assert!(v.approve_action(GUARDIAN3, id, 0).is_ok());
    assert!(v.is_paused());
}

#[test]
fn proposal_ids_count_up() {
    let mut v = fresh(vec![ADMIN], 2);
    assert_eq!(v.propose_action(ADMIN, ActionType::SetPaused(true), 0).unwrap().0, 1);
    assert_eq!(v.propose_action(ADMIN, ActionType::SetPaused(false), 0).unwrap().0, 2);
}

#[test]
fn governance_refusals() {
    let mut v = VolatilityShield::new();
    assert_eq!(v.approve_verdict(ADMIN, 1, 0), Verdict::Refuse(Error::NotInitialized));
    assert_eq!(v.propose_verdict(ADMIN, ActionType::SetPaused(true), 0), Verdict::Halt(Halt::NotInitialized));
    let mut v = fresh(vec![ADMIN], 1);
    add_strategy(&mut v, STRATEGY);
    assert!(matches!(
        v.propose_action(ADMIN, ActionType::AddStrategy(STRATEGY), 0),
        Err(Error::AlreadyInitialized)
    ));
    assert!(matches!(v.propose_action(ADMIN, ActionType::Rebalance(10), 0), Err(Error::NotInitialized)));
    assert_eq!(v.remove_guardian(GUARDIAN), Err(Error::Unauthorized));
    assert_eq!(v.set_threshold(0), Err(Error::Unauthorized));
    assert_eq!(v.set_threshold(2), Err(Error::Unauthorized));
    v.add_guardian(ADMIN);
    assert_eq!(v.get_guardians(), vec![ADMIN]);
}

#[test]
fn oracle_timestamps_must_be_fresh_and_not_future() {
    let mut v = fresh(vec![ADMIN], 1);
    assert_eq!(v.set_oracle_data(vec![], 101, 100), Err(Error::InvalidTimestamp));
    assert_eq!(v.set_oracle_data(vec![], 0, 100), Err(Error::InvalidTimestamp));
    assert_eq!(v.set_oracle_data(vec![], 50, 100), Ok(()));
    assert_eq!(v.set_oracle_data(vec![], 50, 100), Err(Error::InvalidTimestamp));
}

#[test]
fn allocation_checks_in_order() {
    assert_eq!(validate_allocations(&vec![STRATEGY], &vec![(STRATEGY, -1), (STRATEGY2, 5)]), Err(Error::NegativeAllocation));
    assert_eq!(validate_allocations(&vec![STRATEGY], &vec![(STRATEGY2, 5), (STRATEGY, -1)]), Err(Error::ZeroAddressStrategy));
    assert_eq!(validate_allocations(&vec![STRATEGY], &vec![(STRATEGY, i128::MAX), (STRATEGY, 10)]), Err(Error::InvalidAllocationSum));
    assert_eq!(validate_allocations(&vec![STRATEGY, STRATEGY2], &vec![(STRATEGY, 0), (STRATEGY2, 10000)]), Ok(()));
    assert_eq!(lookup_allocation(&vec![(STRATEGY, 7), (STRATEGY, 9)], STRATEGY), 7);
    assert_eq!(lookup_allocation(&vec![(STRATEGY, 7)], STRATEGY2), 0);
}

// ── Strategies ───────────────────────────────────────────────────

#[test]
fn harvest_adds_strategy_balances_to_assets() {
    let mut v = fresh(vec![ADMIN], 1);
    assert_eq!(v.harvest_halt(&vec![]), None);
    assert_eq!(v.harvest(&vec![]), Err(Error::NoStrategies));
    add_strategy(&mut v, STRATEGY);
    add_strategy(&mut v, STRATEGY2);
    v.set_total_assets(1000);
    let balances = vec![100, 200];
    assert_eq!(v.harvest_halt(&balances), None);
    assert_eq!(v.harvest(&balances), Ok(300));
    assert_eq!(v.total_assets(), 1300);
    assert_eq!(v.harvest(&vec![-5, 0]), Ok(-5));
    assert_eq!(v.total_assets(), 1300);
    assert_eq!(v.harvest_halt(&vec![i128::MAX, 1]), Some(Halt::Overflow));
}

#[test]
fn harvest_never_lowers_share_price() {
    let mut v = fresh(vec![ADMIN], 1);
    add_strategy(&mut v, STRATEGY);
    assert_eq!(deposit_in(&mut v, ALICE, ASSET, 1000), 1000);
    assert_eq!(v.get_share_price(), 1_000_000_000);
    assert_eq!(v.harvest_halt(&vec![500]), None);
    assert_eq!(v.harvest(&vec![500]), Ok(500));
    assert_eq!(v.total_shares(), 1000);
    assert_eq!(v.get_share_price(), 1_500_000_000);
    // A loss reported by the strategies leaves the price where it was.
    assert_eq!(v.harvest(&vec![-200]), Ok(-200));
    assert_eq!(v.get_share_price(), 1_500_000_000);
}

#[test]
fn health_records_only_changes() {
    let mut v = fresh(vec![ADMIN], 1);
    add_strategy(&mut v, STRATEGY);
    add_strategy(&mut v, STRATEGY2);
    assert_eq!(v.set_oracle_data(vec![(STRATEGY, 6000), (STRATEGY2, 4000)], 10, 10), Ok(()));
    v.set_total_assets(1000);
    let actuals = vec![600, 300];
    assert_eq!(v.health_halt(&actuals), None);
    let unhealthy = v.check_strategy_health(&actuals, 50).unwrap();
    assert_eq!(unhealthy, vec![STRATEGY2]);
    assert_eq!(
        v.get_strategy_health(STRATEGY),
        Some(StrategyHealth { last_known_balance: 600, last_check_timestamp: 50, is_healthy: true })
    );
    assert_eq!(
        v.get_strategy_health(STRATEGY2),
        Some(StrategyHealth { last_known_balance: 300, last_check_timestamp: 50, is_healthy: false })
    );
    assert!(!deviates_from(400, 440));
    assert!(deviates_from(400, 441));
    assert!(!deviates_from(0, 1_000_000));
}

#[test]
fn mock_strategy_keeps_a_balance() {
    let mut m = MockStrategy::new();
    m.deposit(500);
    m.withdraw(200);
    assert_eq!(m.balance(), 300);
    m.simulate_price_drift(1234);
    assert_eq!(m.balance(), 1234);
}

#[test]
fn direct_settings_take_effect() {
    let mut v = fresh(vec![ADMIN], 1);
    v.set_token(ORACLE);
    assert_eq!(v.token, Some(ORACLE));
    v.set_max_staleness(60);
    assert_eq!(v.max_staleness(), 60);
    v.set_withdraw_cap(5);
    assert_eq!(v.max_withdraw_per_tx, 5);
    assert!(!v.is_paused());
    assert_eq!(v.get_guardians(), vec![ADMIN]);
}

#[test]
fn allocations_fill_one_hundred_percent_unless_empty() {
    let registry = vec![STRATEGY, STRATEGY2];
    assert_eq!(validate_allocations(&registry, &vec![]), Ok(()));
    assert_eq!(validate_allocations(&registry, &vec![(STRATEGY, 0)]), Err(Error::InvalidAllocationSum));
    assert_eq!(
        validate_allocations(&registry, &vec![(STRATEGY, 0), (STRATEGY2, 0)]),
        Err(Error::InvalidAllocationSum)
    );
    assert_eq!(
        validate_allocations(&registry, &vec![(STRATEGY, 5000), (STRATEGY2, 5000)]),
        Ok(())
    );
    // A strategy may appear only once.
    assert_eq!(
        validate_allocations(&registry, &vec![(STRATEGY, 5000), (STRATEGY, 5000)]),
        Err(Error::InvalidAllocationSum)
    );
    let mut v = fresh(vec![ADMIN], 1);
    add_strategy(&mut v, STRATEGY);
    assert_eq!(v.set_oracle_data(vec![(STRATEGY, 0)], 10, 10), Err(Error::InvalidAllocationSum));
    assert_eq!(v.set_oracle_data(vec![(STRATEGY, 10000)], 10, 10), Ok(()));
}

#[test]
fn rebalance_stands_only_when_every_strategy_is_within_bound() {
    let order = RebalanceOrder {
        max_slippage_bps: 100,
        allocations: vec![(STRATEGY, 6000), (STRATEGY2, 4000)],
        total_assets: 10_000,
        asset: ASSET,
    };
    assert_eq!(check_rebalance(&order, &vec![6000, 4000]), Some(Ok(())));
    assert_eq!(check_rebalance(&order, &vec![6050, 4000]), Some(Ok(())));
    assert_eq!(
        check_rebalance(&order, &vec![6000, 3900]),
        Some(Err((STRATEGY2, SlippageBreach { expected: 4000, actual: 3900, slippage_bps: 250 })))
    );
    // The first strategy out of bounds is the one reported.
    assert_eq!(
        check_rebalance(&order, &vec![5000, 3000]),
        Some(Err((STRATEGY, SlippageBreach { expected: 6000, actual: 5000, slippage_bps: 1666 })))
    );
    let overflowing = RebalanceOrder {
        max_slippage_bps: 100,
        allocations: vec![(STRATEGY, 2)],
        total_assets: i128::MAX,
        asset: ASSET,
    };
    assert_eq!(check_rebalance(&overflowing, &vec![0]), None);
}

#[test]
fn rebalance_is_executed_only_after_its_slippage_check() {
    let mut v = fresh(vec![ADMIN], 1);
    add_strategy(&mut v, STRATEGY);
    v.set_total_assets(1000);
    assert_eq!(v.set_oracle_data(vec![(STRATEGY, 10000)], 10, 10), Ok(()));
    let (id, order) = match v.propose_action(ADMIN, ActionType::Rebalance(100), 20) {
        Ok((id, Effect::Rebalance(order))) => (id, order),
        other => panic!("unexpected {:?}", other),
    };
    let executed = |v: &VolatilityShield| v.proposals.as_ref().unwrap().get(&id).unwrap().executed;
    assert!(!executed(&v));
    // The strategy ends 20% short of its target: the rebalance is refused.
    assert_eq!(v.complete_rebalance(id, &order, &vec![800]), Err(Error::SlippageExceeded));
    assert!(!executed(&v));
    // Within one percent: the proposal is executed.
    assert_eq!(v.complete_rebalance(id, &order, &vec![995]), Ok(()));
    assert!(executed(&v));
    assert_eq!(v.approve_verdict(ADMIN, id, 30), Verdict::Refuse(Error::ProposalExecuted));
}
