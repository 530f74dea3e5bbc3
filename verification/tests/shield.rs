use volatility_shield::allocation::{check_slippage, rebalance_move, Move, SlippageBreach};
use volatility_shield::mock_strategy::MockStrategy;
use volatility_shield::types::{
    ActionType, Effect, Error, Halt, QueuedWithdrawal, Verdict, WithdrawOutcome,
};
use volatility_shield::vault::VolatilityShield;

const ADMIN: u64 = 1;
const ASSET: u64 = 2;
const ORACLE: u64 = 3;
const TREASURY: u64 = 4;
const USER: u64 = 10;
const USER2: u64 = 11;
const STRATEGY: u64 = 20;
const STRATEGY2: u64 = 21;
const STRATEGY3: u64 = 22;
const STRANGER: u64 = 99;

fn vault_with(fee: u32, guardians: Vec<u64>, threshold: u32) -> VolatilityShield {
    let mut v = VolatilityShield::new();
    assert_eq!(v.init(ADMIN, ASSET, ORACLE, TREASURY, fee, guardians, threshold), Ok(()));
    v
}

fn vault() -> VolatilityShield {
    vault_with(0, vec![ADMIN], 1)
}

fn register_strategy(v: &mut VolatilityShield, strategy: u64, now: u64) {
    assert_eq!(v.propose_verdict(ADMIN, ActionType::AddStrategy(strategy), now), Verdict::Proceed);
    assert!(v.propose_action(ADMIN, ActionType::AddStrategy(strategy), now).is_ok());
}

fn deposit(v: &mut VolatilityShield, user: u64, amount: i128) {
    assert_eq!(v.deposit_halt(user, ASSET, amount), None);
    v.deposit(user, ASSET, amount);
}

fn queue(v: &mut VolatilityShield, user: u64, shares: i128, now: u64) {
    assert_eq!(v.queue_withdraw_halt(user, shares), None);
    v.queue_withdraw(user, shares, now);
}

fn withdraw(v: &mut VolatilityShield, user: u64, shares: i128, now: u64) -> WithdrawOutcome {
    assert_eq!(v.withdraw_halt(user, shares), None);
    v.withdraw(user, shares, now)
}

fn process(v: &mut VolatilityShield, limit: u32) -> u32 {
    assert_eq!(v.process_halt(limit), None);
    v.process_queued_withdrawals(limit).len() as u32
}

fn cancel(v: &mut VolatilityShield, user: u64) -> Result<(), Error> {
    assert_eq!(v.cancel_halt(user), None);
    v.cancel_queued_withdrawal(user).map(|_| ())
}

fn oracle_data(v: &mut VolatilityShield, allocations: Vec<(u64, i128)>, timestamp: u64, now: u64) -> Result<(), Error> {
    v.set_oracle_data(allocations, timestamp, now)
}

fn propose(v: &mut VolatilityShield, proposer: u64, action: ActionType, now: u64) -> Result<u64, Error> {
    match v.propose_verdict(proposer, action, now) {
        Verdict::Halt(h) => panic!("halt {:?}", h),
        _ => {}
    }
    v.propose_action(proposer, action, now).map(|(id, _)| id)
}

fn approve(v: &mut VolatilityShield, guardian: u64, id: u64, now: u64) -> Result<(), Error> {
    match v.approve_verdict(guardian, id, now) {
        Verdict::Halt(h) => panic!("halt {:?}", h),
        _ => {}
    }
    v.approve_action(guardian, id, now).map(|_| ())
}

#[test]
fn test_init_stores_roles() {
    let v = vault_with(500, vec![ADMIN], 1);
    assert_eq!(v.read_admin(), ADMIN);
    assert_eq!(v.get_oracle(), ORACLE);
    assert_eq!(v.get_asset(), ASSET);
    assert_eq!(v.treasury(), TREASURY);
    assert_eq!(v.fee_percentage(), 500u32);
    assert_eq!(v.total_assets(), 0);
    assert_eq!(v.total_shares(), 0);
    assert_eq!(v.get_strategies().len(), 0);
}

#[test]
fn test_init_already_initialized() {
    let mut v = VolatilityShield::new();
    assert!(v.init(ADMIN, ASSET, ORACLE, TREASURY, 500, vec![ADMIN], 1).is_ok());
    assert_eq!(
        v.init(ADMIN, ASSET, ORACLE, TREASURY, 500, vec![ADMIN], 1),
        Err(Error::AlreadyInitialized)
    );
}

#[test]
fn test_convert_to_assets() {
    let mut v = vault();
    assert_eq!(v.convert_to_assets(100), 100);
    v.set_total_assets(100);
    v.set_total_shares(100);
    assert_eq!(v.convert_to_assets(50), 50);
    v.set_total_assets(10);
    v.set_total_shares(4);
    assert_eq!(v.convert_to_assets(3), 7);
    v.set_total_assets(1000);
    v.set_total_shares(300);
    assert_eq!(v.convert_to_assets(100), 333);
}

#[test]
fn test_convert_to_assets_negative() {
    let v = VolatilityShield::new();
    assert_eq!(v.convert_to_assets_halt(-1), Some(Halt::NegativeAmount));
}

#[test]
fn test_convert_to_shares() {
    let mut v = vault();
    assert_eq!(v.convert_to_shares(100), 100);
    v.set_total_assets(3);
    v.set_total_shares(1);
    assert_eq!(v.convert_to_shares(10), 3);
    v.set_total_assets(1000);
    v.set_total_shares(500);
    assert_eq!(v.convert_to_shares(200), 100);
    v.set_total_assets(300);
    v.set_total_shares(1000);
    assert_eq!(v.convert_to_shares(100), 333);
}

#[test]
fn test_strategy_registry() {
    let mut v = vault();
    assert_eq!(v.read_admin(), ADMIN);
    register_strategy(&mut v, STRATEGY, 0);
    let strategies = v.get_strategies();
    assert_eq!(strategies.len(), 1);
    assert_eq!(strategies[0], STRATEGY);
    register_strategy(&mut v, STRATEGY2, 0);
    let strategies = v.get_strategies();
    assert_eq!(strategies.len(), 2);
    assert_eq!(strategies[1], STRATEGY2);
}

#[test]
fn test_convert_to_shares_negative() {
    let v = VolatilityShield::new();
    assert_eq!(v.convert_to_shares_halt(-1), Some(Halt::NegativeAmount));
}

#[test]
fn test_take_fees() {
    let v = vault_with(500, vec![ADMIN], 1);
    assert_eq!(v.take_fees(1000), 950);
}

#[test]
fn test_deposit_success() {
    let mut v = vault();
    deposit(&mut v, USER, 1000);
    assert_eq!(v.balance(USER), 1000);
    assert_eq!(v.total_assets(), 1000);
    assert_eq!(v.total_shares(), 1000);
}

#[test]
fn test_withdraw_success() {
    let mut v = vault();
    v.set_total_shares(1000);
    v.set_total_assets(5000);
    v.set_balance(USER, 100);
    let outcome = withdraw(&mut v, USER, 50, 0);
    assert_eq!(v.balance(USER), 50);
    assert_eq!(v.total_shares(), 950);
    assert_eq!(v.total_assets(), 4750);
    match outcome {
        WithdrawOutcome::Paid { assets, .. } => assert_eq!(assets, 250),
        WithdrawOutcome::Queued(_) => panic!("expected an immediate payout"),
    }
}

#[test]
fn test_rebalance_admin_auth_accepted() {
    let mut v = vault();
    assert_eq!(oracle_data(&mut v, vec![], 12345, 12345), Ok(()));
    match v.propose_action(ADMIN, ActionType::Rebalance(50), 12345) {
        Ok((_, Effect::Rebalance(order))) => {
            assert_eq!(order.max_slippage_bps, 50);
            assert_eq!(order.allocations.len(), 0);
            assert_eq!(order.asset, ASSET);
        }
        other => panic!("unexpected {:?}", other),
    }
}

#[test]
fn test_rebalance_oracle_auth_accepted() {
    let mut v = vault_with(0, vec![ADMIN, ORACLE], 1);
    assert_eq!(oracle_data(&mut v, vec![], 12345, 12345), Ok(()));
    assert!(propose(&mut v, ORACLE, ActionType::Rebalance(50), 12345).is_ok());
}

#[test]
fn test_multisig_set_paused() {
    let mut v = vault_with(0, vec![ADMIN, ORACLE], 2);
    let id = propose(&mut v, ADMIN, ActionType::SetPaused(true), 0).unwrap();
    assert!(!v.is_paused());
    assert_eq!(approve(&mut v, ORACLE, id, 0), Ok(()));
    assert!(v.is_paused());
}

#[test]
fn test_multisig_add_strategy() {
    let mut v = vault();
    assert!(propose(&mut v, ADMIN, ActionType::AddStrategy(STRATEGY), 0).is_ok());
    assert_eq!(v.get_strategies()[0], STRATEGY);
}

#[test]
fn test_multisig_unauthorized_propose() {
    let mut v = vault();
    assert!(propose(&mut v, STRANGER, ActionType::Rebalance(50), 0).is_err());
}

#[test]
fn test_guardian_crud() {
    let mut v = vault();
    let guardian_2 = 5;
    v.add_guardian(guardian_2);
    assert_eq!(v.get_guardians().len(), 2);
    assert!(v.get_guardians().contains(&guardian_2));
    assert_eq!(v.set_threshold(2), Ok(()));
    assert_eq!(v.get_threshold(), 2);
    assert_eq!(v.remove_guardian(guardian_2), Ok(()));
    assert_eq!(v.get_guardians().len(), 1);
    assert!(!v.get_guardians().contains(&guardian_2));
}

#[test]
fn test_check_strategy_health_all_healthy() {
    let mut v = vault();
    let mut mock = MockStrategy::new();
    register_strategy(&mut v, STRATEGY, 0);
    assert_eq!(oracle_data(&mut v, vec![(STRATEGY, 10000)], 1000, 1000), Ok(()));
    v.set_total_assets(1000);
    mock.deposit(1000);
    let actuals = vec![mock.balance()];
    assert_eq!(v.health_halt(&actuals), None);
    let unhealthy = v.check_strategy_health(&actuals, 1000).unwrap();
    assert_eq!(unhealthy.len(), 0);
}

#[test]
fn test_check_strategy_health_unhealthy_detected() {
    let mut v = vault();
    let mut mock = MockStrategy::new();
    register_strategy(&mut v, STRATEGY, 0);
    assert_eq!(oracle_data(&mut v, vec![(STRATEGY, 10000)], 1000, 1000), Ok(()));
    v.set_total_assets(1000);
    mock.deposit(800);
    let actuals = vec![mock.balance()];
    assert_eq!(v.health_halt(&actuals), None);
    let unhealthy = v.check_strategy_health(&actuals, 1000).unwrap();
    assert_eq!(unhealthy.len(), 1);
    assert_eq!(unhealthy[0], STRATEGY);
}

#[test]
fn test_flag_strategy() {
    let mut v = vault();
    register_strategy(&mut v, STRATEGY, 0);
    assert_eq!(v.flag_strategy(STRATEGY, 0), Ok(()));
    let health = v.get_strategy_health(STRATEGY);
    assert!(health.is_some());
    assert!(!health.unwrap().is_healthy);
}

#[test]
fn test_flag_nonexistent_strategy() {
    let mut v = vault();
    assert_eq!(v.flag_strategy(STRANGER, 0), Err(Error::NotInitialized));
}

#[test]
fn test_remove_strategy_empty_balance() {
    let mut v = vault();
    register_strategy(&mut v, STRATEGY, 0);
    assert_eq!(v.remove_strategy(STRATEGY), Ok(()));
    assert!(!v.get_strategies().contains(&STRATEGY));
}

#[test]
fn test_remove_nonexistent_strategy() {
    let mut v = vault();
    assert_eq!(v.remove_strategy(STRANGER), Err(Error::NotInitialized));
}

#[test]
fn test_get_strategy_health() {
    let mut v = vault();
    v.set_timelock_duration(0);
    register_strategy(&mut v, STRATEGY, 0);
    let health = v.get_strategy_health(STRATEGY);
    assert!(health.is_some());
    assert!(health.unwrap().is_healthy);
    assert_eq!(v.flag_strategy(STRATEGY, 0), Ok(()));
    let health = v.get_strategy_health(STRATEGY);
    assert!(health.is_some());
    assert!(!health.unwrap().is_healthy);
}

#[test]
fn test_check_health_no_strategies() {
    let mut v = vault();
    let actuals: Vec<i128> = vec![];
    assert_eq!(v.health_halt(&actuals), None);
    assert_eq!(v.check_strategy_health(&actuals, 0), Err(Error::NoStrategies));
}

#[test]
fn test_timelock_duration_setting() {
    let mut v = vault();
    v.set_timelock_duration(100);
    assert_eq!(v.timelock_duration, 100);
}

#[test]
fn test_timelock_prevents_premature_execution() {
    let mut v = vault();
    v.set_timelock_duration(100);
    let id = propose(&mut v, ADMIN, ActionType::SetPaused(true), 1000);
    assert!(id.is_ok());
    assert!(!v.is_paused());
}

#[test]
fn test_timelock_blocks_immediate_execution() {
    let mut v = vault();
    v.set_timelock_duration(100);
    let id = propose(&mut v, ADMIN, ActionType::SetPaused(true), 1000);
    assert!(id.is_ok());
    assert!(!v.is_paused());
}

#[test]
fn test_timelock_with_multisig_approval() {
    let mut v = vault_with(0, vec![ADMIN, ORACLE], 2);
    v.set_timelock_duration(100);
    let id = propose(&mut v, ADMIN, ActionType::SetPaused(true), 1000).unwrap();
    assert_eq!(approve(&mut v, ORACLE, id, 1000), Err(Error::TimelockNotElapsed));
    assert_eq!(approve(&mut v, ORACLE, id, 1100), Ok(()));
    assert!(v.is_paused());
}

#[test]
fn test_timelock_zero_duration_allows_immediate_execution() {
    let mut v = vault();
    v.set_timelock_duration(0);
    assert!(propose(&mut v, ADMIN, ActionType::SetPaused(true), 0).is_ok());
    assert!(v.is_paused());
}

#[test]
fn test_timelock_events_emitted() {
    let mut v = vault();
    v.set_timelock_duration(100);
    let first = propose(&mut v, ADMIN, ActionType::SetPaused(true), 1000);
    assert!(first.is_ok());
    let second = propose(&mut v, ADMIN, ActionType::SetPaused(true), 1100);
    assert!(second.is_ok());
}

#[test]
fn test_withdraw_queue_threshold_setting() {
    let mut v = vault();
    assert_eq!(v.queue_threshold_halt(1000), None);
    v.set_withdraw_queue_threshold(1000);
    assert_eq!(v.get_withdraw_queue_threshold(), 1000);
}

#[test]
fn test_withdraw_below_threshold_processes_immediately() {
    let mut v = vault();
    v.set_withdraw_queue_threshold(1000);
    v.set_total_shares(1000);
    v.set_total_assets(5000);
    v.set_balance(USER, 200);
    let outcome = withdraw(&mut v, USER, 50, 0);
    assert_eq!(v.balance(USER), 150);
    match outcome {
        WithdrawOutcome::Paid { assets, .. } => assert_eq!(assets, 250),
        WithdrawOutcome::Queued(_) => panic!("expected an immediate payout"),
    }
    assert_eq!(v.get_pending_withdrawals().len(), 0);
}

#[test]
fn test_withdraw_above_threshold_queues() {
    let mut v = vault();
    v.set_withdraw_queue_threshold(1000);
    v.set_total_shares(1000);
    v.set_total_assets(5000);
    v.set_balance(USER, 500);
    queue(&mut v, USER, 300, 0);
    assert_eq!(v.balance(USER), 200);
    let pending = v.get_pending_withdrawals();
    assert_eq!(pending.len(), 1);
    assert_eq!(pending[0].user, USER);
    assert_eq!(pending[0].shares, 300);
}

#[test]
fn test_process_withdraw_queue() {
    let mut v = vault();
    v.set_withdraw_queue_threshold(1000);
    v.set_total_shares(1000);
    v.set_total_assets(5000);
    v.set_balance(USER, 500);
    queue(&mut v, USER, 300, 0);
    assert_eq!(v.get_pending_withdrawals().len(), 1);
    assert_eq!(v.process_halt(1), None);
    let payouts = v.process_queued_withdrawals(1);
    assert_eq!(v.get_pending_withdrawals().len(), 0);
    assert_eq!(payouts.len(), 1);
    assert_eq!(payouts[0].user, USER);
    assert_eq!(payouts[0].assets, 1500);
    assert_eq!(v.total_shares(), 700);
    assert_eq!(v.total_assets(), 3500);
}

#[test]
fn test_cancel_withdraw() {
    let mut v = vault();
    v.set_withdraw_queue_threshold(1000);
    v.set_total_shares(1000);
    v.set_total_assets(5000);
    v.set_balance(USER, 500);
    queue(&mut v, USER, 300, 0);
    assert_eq!(v.balance(USER), 200);
    assert_eq!(v.get_pending_withdrawals().len(), 1);
    assert_eq!(cancel(&mut v, USER), Ok(()));
    assert_eq!(v.balance(USER), 500);
    assert_eq!(v.get_pending_withdrawals().len(), 0);
}

#[test]
fn test_process_withdraw_queue_empty() {
    let mut v = vault();
    assert_eq!(process(&mut v, 1), 0);
}

#[test]
fn test_cancel_withdraw_not_found() {
    let mut v = vault();
    assert_eq!(cancel(&mut v, USER), Err(Error::WithdrawalNotFound));
}

#[test]
fn test_withdrawal_queue_fifo_order() {
    let mut v = vault();
    v.set_withdraw_queue_threshold(1000);
    v.set_total_shares(1000);
    v.set_total_assets(5000);
    v.set_balance(USER, 300);
    v.set_balance(USER2, 300);
    queue(&mut v, USER, 300, 0);
    queue(&mut v, USER2, 300, 0);
    let pending = v.get_pending_withdrawals();
    assert_eq!(pending.len(), 2);
    assert_eq!(pending[0].user, USER);
    assert_eq!(pending[1].user, USER2);
    assert_eq!(v.process_halt(1), None);
    let first = v.process_queued_withdrawals(1);
    assert_eq!(first.len(), 1);
    assert_eq!((first[0].user, first[0].assets), (USER, 1500));
    assert_eq!(v.process_halt(1), None);
    let second = v.process_queued_withdrawals(1);
    assert_eq!(second.len(), 1);
    assert_eq!((second[0].user, second[0].assets), (USER2, 1500));
}

#[test]
fn test_withdrawal_queue_full_lifecycle() {
    let mut v = vault();
    v.set_withdraw_queue_threshold(1000);
    v.set_total_shares(1000);
    v.set_total_assets(5000);
    v.set_balance(USER, 500);
    queue(&mut v, USER, 300, 0);
    assert_eq!(v.balance(USER), 200);
    assert_eq!(v.get_pending_withdrawals().len(), 1);
    assert_eq!(cancel(&mut v, USER), Ok(()));
    assert_eq!(v.balance(USER), 500);
    assert_eq!(v.get_pending_withdrawals().len(), 0);
    queue(&mut v, USER, 300, 0);
    assert_eq!(v.balance(USER), 200);
    assert_eq!(v.get_pending_withdrawals().len(), 1);
    assert_eq!(v.process_halt(1), None);
    let payouts = v.process_queued_withdrawals(1);
    assert_eq!(v.balance(USER), 200);
    assert_eq!(payouts[0].assets, 1500);
    assert_eq!(v.get_pending_withdrawals().len(), 0);
}

#[test]
fn test_valid_allocation_sum_to_100_percent() {
    let mut v = vault();
    register_strategy(&mut v, STRATEGY, 0);
    register_strategy(&mut v, STRATEGY2, 0);
    register_strategy(&mut v, STRATEGY3, 0);
    let allocations = vec![(STRATEGY, 3000), (STRATEGY2, 5000), (STRATEGY3, 2000)];
    assert!(oracle_data(&mut v, allocations, 1000, 1000).is_ok());
}

#[test]
fn test_empty_allocation_accepted() {
    let mut v = vault();
    assert!(oracle_data(&mut v, vec![], 1000, 1000).is_ok());
}

#[test]
fn test_allocation_sum_less_than_100_percent_rejected() {
    let mut v = vault();
    register_strategy(&mut v, STRATEGY, 0);
    register_strategy(&mut v, STRATEGY2, 0);
    let allocations = vec![(STRATEGY, 3000), (STRATEGY2, 5000)];
    assert_eq!(oracle_data(&mut v, allocations, 1000, 1000), Err(Error::InvalidAllocationSum));
}

#[test]
fn test_allocation_sum_greater_than_100_percent_rejected() {
    let mut v = vault();
    register_strategy(&mut v, STRATEGY, 0);
    register_strategy(&mut v, STRATEGY2, 0);
    register_strategy(&mut v, STRATEGY3, 0);
    let allocations = vec![(STRATEGY, 4000), (STRATEGY2, 5000), (STRATEGY3, 2500)];
    assert_eq!(oracle_data(&mut v, allocations, 1000, 1000), Err(Error::InvalidAllocationSum));
}

#[test]
fn test_negative_allocation_rejected() {
    let mut v = vault();
    register_strategy(&mut v, STRATEGY, 0);
    register_strategy(&mut v, STRATEGY2, 0);
    let allocations = vec![(STRATEGY, -1000), (STRATEGY2, 11000)];
    assert_eq!(oracle_data(&mut v, allocations, 1000, 1000), Err(Error::NegativeAllocation));
}

#[test]
fn test_single_strategy_100_percent_allocation() {
    let mut v = vault();
    register_strategy(&mut v, STRATEGY, 0);
    assert!(oracle_data(&mut v, vec![(STRATEGY, 10000)], 1000, 1000).is_ok());
}

#[test]
fn test_multiple_negative_allocations_rejected() {
    let mut v = vault();
    register_strategy(&mut v, STRATEGY, 0);
    register_strategy(&mut v, STRATEGY2, 0);
    let allocations = vec![(STRATEGY, -5000), (STRATEGY2, -5000)];
    assert_eq!(oracle_data(&mut v, allocations, 1000, 1000), Err(Error::NegativeAllocation));
}

#[test]
fn test_unregistered_strategy_address_rejected() {
    let mut v = vault();
    let allocations = vec![(STRANGER, 10000)];
    assert_eq!(oracle_data(&mut v, allocations, 1000, 1000), Err(Error::ZeroAddressStrategy));
}

#[test]
fn test_partially_unregistered_allocation_rejected() {
    let mut v = vault();
    register_strategy(&mut v, STRATEGY, 0);
    let allocations = vec![(STRATEGY, 5000), (STRANGER, 5000)];
    assert_eq!(oracle_data(&mut v, allocations, 1000, 1000), Err(Error::ZeroAddressStrategy));
}

#[test]
fn test_queue_withdraw_prevents_double_spending() {
    let mut v = vault();
    deposit(&mut v, USER, 1000);
    v.set_withdraw_queue_threshold(500);
    match withdraw(&mut v, USER, 600, 0) {
        WithdrawOutcome::Queued(receipt) => assert_eq!(receipt.shares, 600),
        WithdrawOutcome::Paid { .. } => panic!("expected the withdrawal to be queued"),
    }
    assert_eq!(v.balance(USER), 400);
    assert_eq!(v.withdraw_halt(USER, 500), Some(Halt::InsufficientShares));
}

#[test]
fn test_cancel_queued_withdrawal_restores_balance() {
    let mut v = vault();
    deposit(&mut v, USER, 1000);
    v.set_withdraw_queue_threshold(500);
    withdraw(&mut v, USER, 600, 0);
    assert_eq!(v.balance(USER), 400);
    assert_eq!(cancel(&mut v, USER), Ok(()));
    assert_eq!(v.balance(USER), 1000);
}

#[test]
fn test_unauthorized_rebalance_rejected() {
    let v = vault();
    assert!(v.has_admin());
}

#[test]
fn test_deposit_while_paused_fails() {
    let mut v = vault();
    v.set_paused(true);
    assert_eq!(v.deposit_halt(USER, ASSET, 100), Some(Halt::Paused));
}

#[test]
fn test_deposit_zero_fails() {
    let v = vault();
    assert_eq!(v.deposit_halt(USER, ASSET, 0), Some(Halt::NonPositiveDeposit));
}

#[test]
fn test_withdraw_cap_exceeded() {
    let mut v = vault();
    v.set_withdraw_cap(100);
    v.set_total_shares(1000);
    v.set_total_assets(1000);
    v.set_balance(USER, 200);
    assert_eq!(v.withdraw_halt(USER, 150), Some(Halt::WithdrawalCapExceeded));
}

#[test]
fn test_stale_oracle_data_rejected() {
    let mut v = vault_with(0, vec![ADMIN, ORACLE], 1);
    v.set_max_staleness(60);
    assert_eq!(oracle_data(&mut v, vec![], 1000, 1000), Ok(()));
    assert_eq!(
        v.propose_verdict(ORACLE, ActionType::Rebalance(50), 1100),
        Verdict::Refuse(Error::StaleOracleData)
    );
    assert!(propose(&mut v, ORACLE, ActionType::Rebalance(50), 1100).is_err());
}

#[test]
fn test_multisig_already_approved_rejected() {
    let mut v = vault_with(0, vec![ADMIN], 2);
    let id = propose(&mut v, ADMIN, ActionType::SetPaused(true), 0).unwrap();
    assert_eq!(approve(&mut v, ADMIN, id, 0), Err(Error::AlreadyApproved));
}

#[test]
fn test_multisig_proposal_not_found() {
    let mut v = vault();
    assert_eq!(approve(&mut v, ADMIN, 999, 0), Err(Error::ProposalNotFound));
}

// ── Rebalance moves and slippage ─────────────────────────────────

#[test]
fn rebalance_moves_toward_target() {
    assert_eq!(rebalance_move(1000, 3000, 100), Some(Move::Deposit(200)));
    assert_eq!(rebalance_move(1000, 3000, 500), Some(Move::Withdraw(200)));
    assert_eq!(rebalance_move(1000, 3000, 300), Some(Move::Hold));
    assert_eq!(rebalance_move(i128::MAX, 2, 0), None);
}

#[test]
fn slippage_within_and_beyond_the_limit() {
    assert_eq!(check_slippage(1000, 10000, 995, 50), Some(Ok(())));
    assert_eq!(
        check_slippage(1000, 10000, 900, 50),
        Some(Err(SlippageBreach { expected: 1000, actual: 900, slippage_bps: 1000 }))
    );
    assert_eq!(check_slippage(1000, 0, 900, 50), Some(Ok(())));
}

#[test]
fn queued_withdrawal_records_its_time() {
    let mut v = vault();
    v.set_withdraw_queue_threshold(0);
    v.set_balance(USER, 10);
    v.set_total_shares(10);
    v.set_total_assets(10);
    queue(&mut v, USER, 4, 777);
    assert_eq!(
        v.get_pending_withdrawals()[0],
        QueuedWithdrawal { user: USER, shares: 4, timestamp: 777 }
    );
}


#[test]
fn test_cannot_queue_multiple_withdrawals() {
    let mut v = vault();
    v.set_withdraw_queue_threshold(1000);
    v.set_total_shares(1000);
    v.set_total_assets(5000);
    v.set_balance(USER, 600);
    queue(&mut v, USER, 300, 0);
    assert_eq!(v.balance(USER), 300);
    assert_eq!(v.queue_withdraw_halt(USER, 250), Some(Halt::AlreadyQueued));
    assert_eq!(v.withdraw_halt(USER, 250), Some(Halt::AlreadyQueued));
    assert_eq!(v.get_pending_withdrawals().len(), 1);
}
