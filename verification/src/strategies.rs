//! Oracle data, the strategy registry, harvesting and health monitoring.
use vstd::prelude::*;

use crate::allocation::{
    allocation_error, allocation_of, deviates, deviates_from, deviation_defined, lookup_allocation,
    validate_allocations,
};
use crate::math::{bps_target, bps_target_defined, fits, lemma_trunc_div_bps_fits, target_allocation};
use crate::model::{first_index, lemma_first_index_at, lemma_first_index_none, VaultView};
use crate::types::{AccountId, Error, Halt, StrategyHealth};
use crate::vault::{contains_account, VolatilityShield};

verus! {

broadcast use vstd::std_specs::hash::group_hash_axioms;

/// Sum of `values`.
pub open spec fn sum_of(values: Seq<i128>) -> int
    decreases values.len(),
{
    if values.len() == 0 {
        0
    } else {
        sum_of(values.drop_last()) + values.last()
    }
}

/// Every running sum of `values` is an `i128`, as checked addition needs.
pub open spec fn running_sums_fit(values: Seq<i128>) -> bool {
    forall|k: int| 0 <= k <= values.len() ==> fits(#[trigger] sum_of(values.take(k)))
}

/// The health records and the unhealthy strategies after checking the
/// first `k` strategies against their balances `actuals` at `now`.
pub open spec fn health_fold(v: VaultView, actuals: Seq<i128>, now: u64, k: int) -> (
    Map<AccountId, StrategyHealth>,
    Seq<AccountId>,
)
    decreases k,
{
    if k <= 0 {
        (v.strategy_health, Seq::empty())
    } else {
        let prev = health_fold(v, actuals, now, k - 1);
        let s = v.strategies[k - 1];
        let actual = actuals[k - 1];
        let expected = v.expected_balance(s);
        let current = if prev.0.contains_key(s) {
            prev.0[s]
        } else {
            StrategyHealth {
                last_known_balance: expected as i128,
                last_check_timestamp: now,
                is_healthy: true,
            }
        };
        let healthy = !deviates(expected, actual as int);
        let health = if healthy != current.is_healthy || actual != current.last_known_balance {
            prev.0.insert(
                s,
                StrategyHealth {
                    last_known_balance: actual,
                    last_check_timestamp: now,
                    is_healthy: healthy,
                },
            )
        } else {
            prev.0
        };
        (health, if healthy {
            prev.1
        } else {
            prev.1.push(s)
        })
    }
}

/// What a health check at `now` leaves recorded for strategy `s`, found
/// holding `actual` against the balance `expected` its allocation asks:
/// its record holds `actual` and whether it is healthy, stamped `now` unless
/// the record was already right; a strategy with no record keeps none only
/// when it sits exactly on a healthy expected balance.
pub open spec fn health_recorded(
    before: Map<AccountId, StrategyHealth>,
    after: Map<AccountId, StrategyHealth>,
    s: AccountId,
    actual: i128,
    expected: int,
    now: u64,
) -> bool {
    let healthy = !deviates(expected, actual as int);
    if after.contains_key(s) {
        &&& after[s].last_known_balance == actual
        &&& after[s].is_healthy == healthy
        &&& (after[s].last_check_timestamp == now || (before.contains_key(s) && after[s]
            == before[s]))
    } else {
        !before.contains_key(s) && healthy && actual == expected
    }
}

/// Strategy `i` of the registry deviates from its expected balance.
pub open spec fn deviates_at(v: VaultView, actuals: Seq<i128>, i: int) -> bool {
    deviates(v.expected_balance(v.strategies[i]), actuals[i] as int)
}

/// Checking the first `k` distinct strategies records each of them as
/// [`health_recorded`] says, touches no other record, and lists exactly the
/// strategies that deviate.
proof fn lemma_health_fold_direct(v: VaultView, actuals: Seq<i128>, now: u64, k: int)
    requires
        0 <= k <= v.strategies.len(),
        actuals.len() == v.strategies.len(),
        v.strategies.no_duplicates(),
        v.health_defined(actuals),
    ensures
        forall|i: int|
            0 <= i < k ==> health_recorded(
                v.strategy_health,
                health_fold(v, actuals, now, k).0,
                #[trigger] v.strategies[i],
                actuals[i],
                v.expected_balance(v.strategies[i]),
                now,
            ),
        forall|key: AccountId|
            (forall|i: int| 0 <= i < k ==> v.strategies[i] != key) ==> (
            #[trigger] health_fold(v, actuals, now, k).0.contains_key(key)
                == v.strategy_health.contains_key(key) && (v.strategy_health.contains_key(key)
                ==> health_fold(v, actuals, now, k).0[key] == v.strategy_health[key])),
        forall|x: AccountId|
            #[trigger] health_fold(v, actuals, now, k).1.contains(x) <==> exists|i: int|
                0 <= i < k && v.strategies[i] == x && #[trigger] deviates_at(v, actuals, i),
    decreases k,
{
    if k > 0 {
        lemma_health_fold_direct(v, actuals, now, k - 1);
        let prev = health_fold(v, actuals, now, k - 1);
        let cur = health_fold(v, actuals, now, k);
        let s = v.strategies[k - 1];
        assert forall|i: int| 0 <= i < k - 1 implies v.strategies[i] != s by {
            assert(v.strategies[i] != v.strategies[k - 1]);
        }
        assert(prev.0.contains_key(s) == v.strategy_health.contains_key(s));
        let expected = v.expected_balance(s);
        assert(bps_target_defined(
            v.total_assets as int,
            allocation_of(v.allocation_list(), s) as int,
        ));
        lemma_trunc_div_bps_fits(
            v.total_assets as int * allocation_of(v.allocation_list(), s) as int,
        );
        assert(fits(expected));
        assert forall|i: int| 0 <= i < k implies health_recorded(
            v.strategy_health,
            cur.0,
            #[trigger] v.strategies[i],
            actuals[i],
            v.expected_balance(v.strategies[i]),
            now,
        ) by {
            if i < k - 1 {
                assert(v.strategies[i] != s);
                assert(health_recorded(
                    v.strategy_health,
                    prev.0,
                    v.strategies[i],
                    actuals[i],
                    v.expected_balance(v.strategies[i]),
                    now,
                ));
            }
        }
        assert forall|key: AccountId|
            (forall|i: int| 0 <= i < k ==> v.strategies[i] != key) implies (
            #[trigger] cur.0.contains_key(key) == v.strategy_health.contains_key(key) && (
            v.strategy_health.contains_key(key) ==> cur.0[key] == v.strategy_health[key])) by {
            assert(v.strategies[k - 1] != key);
            assert(forall|i: int| 0 <= i < k - 1 ==> v.strategies[i] != key);
            assert(prev.0.contains_key(key) == v.strategy_health.contains_key(key));
        }
        assert(cur.1 == if deviates_at(v, actuals, k - 1) {
            prev.1.push(s)
        } else {
            prev.1
        });
        assert forall|x: AccountId| #[trigger] cur.1.contains(x) <==> exists|i: int|
            0 <= i < k && v.strategies[i] == x && #[trigger] deviates_at(v, actuals, i) by {
            if cur.1.contains(x) {
                let idx = choose|idx: int| 0 <= idx < cur.1.len() && cur.1[idx] == x;
                if idx < prev.1.len() {
                    assert(prev.1[idx] == x);
                    assert(prev.1.contains(x));
                    let i = choose|i: int|
                        0 <= i < k - 1 && v.strategies[i] == x && #[trigger] deviates_at(
                            v,
                            actuals,
                            i,
                        );
                    assert(0 <= i < k && v.strategies[i] == x && deviates_at(v, actuals, i));
                } else {
                    assert(x == s && deviates_at(v, actuals, k - 1));
                }
            }
            if exists|i: int| 0 <= i < k && v.strategies[i] == x && #[trigger] deviates_at(v, actuals, i) {
                let i = choose|i: int|
                    0 <= i < k && v.strategies[i] == x && #[trigger] deviates_at(v, actuals, i);
                if i < k - 1 {
                    assert(prev.1.contains(x));
                    let idx = choose|idx: int| 0 <= idx < prev.1.len() && prev.1[idx] == x;
                    assert(cur.1[idx] == x);
                } else {
                    assert(cur.1[cur.1.len() - 1] == s);
                }
            }
        }
    }
}

impl VaultView {
    /// The oracle's allocations, none when none were stored.
    pub open spec fn allocation_list(self) -> Seq<(AccountId, i128)> {
        match self.target_allocations {
            Some(a) => a,
            None => Seq::empty(),
        }
    }

    /// Balance that the oracle's allocation asks of `strategy`.
    pub open spec fn expected_balance(self, strategy: AccountId) -> int {
        bps_target(self.total_assets as int, allocation_of(self.allocation_list(), strategy) as int)
    }

    /// The vault checks every strategy against `actuals` without aborting.
    pub open spec fn health_defined(self, actuals: Seq<i128>) -> bool {
        forall|i: int|
            0 <= i < self.strategies.len() ==> {
                let s = #[trigger] self.strategies[i];
                &&& bps_target_defined(
                    self.total_assets as int,
                    allocation_of(self.allocation_list(), s) as int,
                )
                &&& deviation_defined(self.expected_balance(s), actuals[i] as int)
            }
    }

    /// Why `check_strategy_health` aborts, if it does.
    pub open spec fn health_halt(self, actuals: Seq<i128>) -> Option<Halt> {
        if self.admin is None {
            Some(Halt::NotInitialized)
        } else if self.strategies.len() > 0 && !self.health_defined(actuals) {
            Some(Halt::Overflow)
        } else {
            None
        }
    }

    /// Why `set_oracle_data` aborts, if it does.
    pub open spec fn oracle_halt(self) -> Option<Halt> {
        if self.oracle is None {
            Some(Halt::NotInitialized)
        } else {
            None
        }
    }

    /// The error that `set_oracle_data` returns, if it returns one.
    pub open spec fn oracle_data_error(
        self,
        allocations: Seq<(AccountId, i128)>,
        timestamp: u64,
        now: u64,
    ) -> Option<Error> {
        if timestamp > now || timestamp <= self.oracle_last_update {
            Some(Error::InvalidTimestamp)
        } else {
            allocation_error(self.strategies, allocations)
        }
    }

    /// Storage after a harvest that found `balances` in the strategies: a
    /// positive yield is added to the vault's assets, the shares stay.
    pub open spec fn harvested(self, balances: Seq<i128>) -> VaultView {
        VaultView {
            total_assets: if sum_of(balances) > 0 {
                (self.total_assets + sum_of(balances)) as i128
            } else {
                self.total_assets
            },
            ..self
        }
    }

    /// Why `harvest` aborts, if it does.
    pub open spec fn harvest_halt(self, balances: Seq<i128>) -> Option<Halt> {
        if self.version != 1 {
            Some(Halt::VersionMismatch)
        } else if self.admin is None {
            Some(Halt::NotInitialized)
        } else if self.strategies.len() == 0 {
            None
        } else if !running_sums_fit(balances) {
            Some(Halt::Overflow)
        } else if sum_of(balances) > 0 && !fits(self.total_assets + sum_of(balances)) {
            Some(Halt::Overflow)
        } else {
            None
        }
    }
}

/// `values.take(k + 1)` extends `values.take(k)` by `values[k]`.
proof fn lemma_sum_take_step(values: Seq<i128>, k: int)
    requires
        0 <= k < values.len(),
    ensures
        sum_of(values.take(k + 1)) == sum_of(values.take(k)) + values[k],
{
    assert(values.take(k + 1).drop_last() =~= values.take(k));
}

impl VolatilityShield {
    /// Why `set_oracle_data` would abort, if it would.
    pub fn oracle_halt(&self) -> (r: Option<Halt>)
        ensures
            r == self@.oracle_halt(),
    {
        if self.oracle.is_none() {
            Some(Halt::NotInitialized)
        } else {
            None
        }
    }

    /// Store new target allocations from the oracle, stamped `timestamp`,
    /// at `now`.
    pub fn set_oracle_data(&mut self, allocations: Vec<(AccountId, i128)>, timestamp: u64, now: u64) -> (r:
        Result<(), Error>)
        requires
            old(self)@.oracle_halt() is None,
        ensures
            match old(self)@.oracle_data_error(allocations@, timestamp, now) {
                Some(e) => r == Err::<(), Error>(e) && final(self)@ == old(self)@,
                None => r is Ok && final(self)@ == (VaultView {
                    oracle_last_update: timestamp,
                    target_allocations: Some(allocations@),
                    ..old(self)@
                }),
            },
    {
        if timestamp > now || timestamp <= self.oracle_last_update {
            return Err(Error::InvalidTimestamp);
        }
        match validate_allocations(&self.strategies, &allocations) {
            Err(e) => {
                return Err(e);
            },
            Ok(()) => {},
        }
        self.oracle_last_update = timestamp;
        self.target_allocations = Some(allocations);
        Ok(())
    }

    /// Why `harvest` would abort, if it would.
    pub fn harvest_halt(&self, balances: &Vec<i128>) -> (r: Option<Halt>)
        ensures
            r == self@.harvest_halt(balances@),
    {
        if self.version != 1 {
            return Some(Halt::VersionMismatch);
        }
        if self.admin.is_none() {
            return Some(Halt::NotInitialized);
        }
        if self.strategies.len() == 0 {
            return None;
        }
        let mut total: i128 = 0;
        let mut i: usize = 0;
        proof {
            assert(balances@.take(0) =~= Seq::<i128>::empty());
        }
        while i < balances.len()
            invariant
                self.version == 1,
                self.admin is Some,
                self.strategies.len() > 0,
                i <= balances.len(),
                total == sum_of(balances@.take(i as int)),
                forall|k: int| 0 <= k <= i ==> fits(#[trigger] sum_of(balances@.take(k))),
            decreases balances.len() - i,
        {
            proof {
                lemma_sum_take_step(balances@, i as int);
            }
            total = match total.checked_add(balances[i]) {
                Some(t) => t,
                None => {
                    proof {
                        assert(!fits(sum_of(balances@.take(i + 1))));
                    }
                    return Some(Halt::Overflow);
                },
            };
            i = i + 1;
        }
        proof {
            assert(balances@.take(balances.len() as int) =~= balances@);
        }
        if total > 0 && self.total_assets.checked_add(total).is_none() {
            return Some(Halt::Overflow);
        }
        None
    }

    /// Count the strategies' `balances` (one per registered strategy, in
    /// order) as yield and add it to the vault's assets.  Returns the yield.
    pub fn harvest(&mut self, balances: &Vec<i128>) -> (r: Result<i128, Error>)
        requires
            old(self)@.harvest_halt(balances@) is None,
            balances.len() == old(self).strategies.len(),
        ensures
            old(self).strategies.len() == 0 ==> r == Err::<i128, Error>(Error::NoStrategies)
                && final(self)@ == old(self)@,
            old(self).strategies.len() > 0 ==> r == Ok::<i128, Error>(sum_of(balances@) as i128)
                && final(self)@ == old(self)@.harvested(balances@),
    {
        if self.strategies.len() == 0 {
            return Err(Error::NoStrategies);
        }
        let mut total: i128 = 0;
        let mut i: usize = 0;
        proof {
            assert(balances@.take(0) =~= Seq::<i128>::empty());
        }
        while i < balances.len()
            invariant
                i <= balances.len(),
                total == sum_of(balances@.take(i as int)),
                running_sums_fit(balances@),
            decreases balances.len() - i,
        {
            proof {
                lemma_sum_take_step(balances@, i as int);
                assert(fits(sum_of(balances@.take(i + 1))));
            }
            total = total + balances[i];
            i = i + 1;
        }
        proof {
            assert(balances@.take(balances.len() as int) =~= balances@);
        }
        if total > 0 {
            self.total_assets = self.total_assets + total;
        }
        Ok(total)
    }

    /// Basis points that the stored allocations give `strategy`.
    fn allocation_for(&self, strategy: AccountId) -> (r: i128)
        ensures
            r == allocation_of(self@.allocation_list(), strategy),
    {
        match &self.target_allocations {
            Some(a) => lookup_allocation(a, strategy),
            None => {
                proof {
                    crate::allocation::lemma_no_allocation(strategy);
                }
                0
            },
        }
    }

    /// Why `check_strategy_health` would abort, if it would.
    pub fn health_halt(&self, actuals: &Vec<i128>) -> (r: Option<Halt>)
        requires
            actuals.len() == self.strategies.len(),
        ensures
            r == self@.health_halt(actuals@),
    {
        if self.admin.is_none() {
            return Some(Halt::NotInitialized);
        }
        let n = self.strategies.len();
        let mut i: usize = 0;
        while i < n
            invariant
                self.admin is Some,
                n == self.strategies.len() == actuals.len(),
                i <= n,
                forall|j: int|
                    0 <= j < i ==> {
                        let s = #[trigger] self@.strategies[j];
                        &&& bps_target_defined(
                            self.total_assets as int,
                            allocation_of(self@.allocation_list(), s) as int,
                        )
                        &&& deviation_defined(self@.expected_balance(s), actuals@[j] as int)
                    },
            decreases n - i,
        {
            let s = self.strategies[i];
            let bps = self.allocation_for(s);
            let defined = match self.total_assets.checked_mul(bps) {
                None => false,
                Some(_) => {
                    let expected = target_allocation(self.total_assets, bps);
                    expected <= 0 || match actuals[i].checked_sub(expected) {
                        Some(d) => d != i128::MIN,
                        None => false,
                    }
                },
            };
            if !defined {
                proof {
                    assert(self@.strategies[i as int] == s);
                    assert(!(bps_target_defined(
                        self.total_assets as int,
                        allocation_of(self@.allocation_list(), s) as int,
                    ) && deviation_defined(self@.expected_balance(s), actuals@[i as int] as int)));
                    assert(!self@.health_defined(actuals@));
                }
                return Some(Halt::Overflow);
            }
            i = i + 1;
        }
        None
    }

    /// Check every registered strategy's balance, `actuals[i]` for the i-th,
    /// against its target at `now`; a strategy off by more than a tenth of a
    /// positive target is unhealthy.  Records what changed and returns the
    /// unhealthy strategies in registry order.
    pub fn check_strategy_health(&mut self, actuals: &Vec<i128>, now: u64) -> (r: Result<
        Vec<AccountId>,
        Error,
    >)
        requires
            old(self)@.health_halt(actuals@) is None,
            actuals.len() == old(self).strategies.len(),
        ensures
            old(self).strategies.len() == 0 ==> (r matches Err(e) && e == Error::NoStrategies
                && final(self)@ == old(self)@),
            old(self).strategies.len() > 0 ==> {
                let fold = health_fold(old(self)@, actuals@, now, old(self).strategies.len() as int);
                &&& r matches Ok(list) && list@ == fold.1
                &&& final(self)@ == (VaultView { strategy_health: fold.0, ..old(self)@ })
            },
            old(self).strategies.len() > 0 && old(self)@.strategies.no_duplicates() ==> {
                let before = old(self)@.strategy_health;
                let after = final(self)@.strategy_health;
                &&& forall|i: int|
                    0 <= i < old(self).strategies.len() ==> health_recorded(
                        before,
                        after,
                        #[trigger] old(self)@.strategies[i],
                        actuals@[i],
                        old(self)@.expected_balance(old(self)@.strategies[i]),
                        now,
                    )
                &&& forall|key: AccountId|
                    !old(self)@.strategies.contains(key) ==> (#[trigger] after.contains_key(key)
                        == before.contains_key(key) && (before.contains_key(key) ==> after[key]
                        == before[key]))
                &&& r matches Ok(list) && forall|x: AccountId|
                    #[trigger] list@.contains(x) <==> exists|i: int|
                        0 <= i < old(self).strategies.len() && old(self)@.strategies[i] == x
                            && #[trigger] deviates_at(old(self)@, actuals@, i)
            },
    {
        let n = self.strategies.len();
        if n == 0 {
            return Err(Error::NoStrategies);
        }
        let ghost start = self@;
        let mut unhealthy: Vec<AccountId> = Vec::new();
        let mut i: usize = 0;
        while i < n
            invariant
                start == old(self)@,
                n == self.strategies.len() == actuals.len(),
                start.health_defined(actuals@),
                i <= n,
                self@ == (VaultView { strategy_health: self.strategy_health@, ..start }),
                self.strategy_health@ == health_fold(start, actuals@, now, i as int).0,
                unhealthy@ == health_fold(start, actuals@, now, i as int).1,
            decreases n - i,
        {
            let s = self.strategies[i];
            let actual = actuals[i];
            proof {
                assert(start.strategies[i as int] == s);
            }
            let bps = self.allocation_for(s);
            let expected = target_allocation(self.total_assets, bps);
            let current = match self.strategy_health.get(&s) {
                Some(h) => *h,
                None => StrategyHealth {
                    last_known_balance: expected,
                    last_check_timestamp: now,
                    is_healthy: true,
                },
            };
            let healthy = !deviates_from(expected, actual);
            if healthy != current.is_healthy || actual != current.last_known_balance {
                self.strategy_health.insert(
                    s,
                    StrategyHealth {
                        last_known_balance: actual,
                        last_check_timestamp: now,
                        is_healthy: healthy,
                    },
                );
            }
            if !healthy {
                unhealthy.push(s);
            }
            i = i + 1;
        }
        proof {
            if start.strategies.no_duplicates() {
                lemma_health_fold_direct(start, actuals@, now, n as int);
                assert forall|key: AccountId| !start.strategies.contains(key) implies (
                #[trigger] self@.strategy_health.contains_key(key)
                    == start.strategy_health.contains_key(key) && (
                start.strategy_health.contains_key(key) ==> self@.strategy_health[key]
                    == start.strategy_health[key])) by {
                    assert forall|i: int| 0 <= i < n implies start.strategies[i] != key by {
                        if start.strategies[i] == key {
                            assert(start.strategies.contains(key));
                        }
                    }
                }
            }
        }
        Ok(unhealthy)
    }

    /// Mark `strategy` unhealthy at `now`.
    pub fn flag_strategy(&mut self, strategy: AccountId, now: u64) -> (r: Result<(), Error>)
        requires
            old(self)@.admin_halt() is None,
        ensures
            !old(self)@.strategies.contains(strategy) ==> r == Err::<(), Error>(
                Error::NotInitialized,
            ) && final(self)@ == old(self)@,
            old(self)@.strategies.contains(strategy) ==> r is Ok && final(self)@ == (VaultView {
                strategy_health: old(self)@.strategy_health.insert(
                    strategy,
                    StrategyHealth {
                        last_known_balance: 0,
                        last_check_timestamp: now,
                        is_healthy: false,
                    },
                ),
                ..old(self)@
            }),
    {
        if !contains_account(&self.strategies, strategy) {
            return Err(Error::NotInitialized);
        }
        self.strategy_health.insert(
            strategy,
            StrategyHealth { last_known_balance: 0, last_check_timestamp: now, is_healthy: false },
        );
        Ok(())
    }

    /// Drop `strategy` from the registry and forget its health; the host
    /// withdraws whatever the strategy still holds.
    pub fn remove_strategy(&mut self, strategy: AccountId) -> (r: Result<(), Error>)
        requires
            old(self)@.admin_halt() is None,
        ensures
            match first_index(old(self)@.strategies, strategy) {
                None => r == Err::<(), Error>(Error::NotInitialized) && final(self)@ == old(self)@,
                Some(i) => r is Ok && final(self)@ == (VaultView {
                    strategies: old(self)@.strategies.remove(i),
                    strategy_health: old(self)@.strategy_health.remove(strategy),
                    ..old(self)@
                }),
            },
    {
        let n = self.strategies.len();
        let mut i: usize = 0;
        while i < n
            invariant
                self@ == old(self)@,
                n == self.strategies.len(),
                i <= n,
                forall|j: int| 0 <= j < i ==> self@.strategies[j] != strategy,
            decreases n - i,
        {
            if self.strategies[i] == strategy {
                proof {
                    lemma_first_index_at(self@.strategies, strategy, i as int);
                }
                self.strategies.remove(i);
                self.strategy_health.remove(&strategy);
                return Ok(());
            }
            i = i + 1;
        }
        proof {
            lemma_first_index_none(self@.strategies, strategy);
        }
        Err(Error::NotInitialized)
    }

    /// The recorded health of `strategy`, if any.
    pub fn get_strategy_health(&self, strategy: AccountId) -> (r: Option<StrategyHealth>)
        ensures
            r == (if self@.strategy_health.contains_key(strategy) {
                Some(self@.strategy_health[strategy])
            } else {
                None
            }),
    {
        match self.strategy_health.get(&strategy) {
            Some(h) => Some(*h),
            None => None,
        }
    }
}

} // verus!
