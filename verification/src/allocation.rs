//! Oracle allocations: their validation, the moves that bring each
//! strategy to its target, the slippage check after a rebalance, and the
//! health of a strategy's balance against its target.
use vstd::prelude::*;

use crate::math::{bps_target, bps_target_defined, fits, target_allocation, trunc_div, BPS_SCALE};
use crate::types::{AccountId, Error, RebalanceOrder};

verus! {

/// Some entry of `allocs` is for `strategy`.
pub open spec fn names_strategy(allocs: Seq<(AccountId, i128)>, strategy: AccountId) -> bool {
    exists|i: int| 0 <= i < allocs.len() && #[trigger] allocs[i].0 == strategy
}

/// The first entry of `allocs`, in order, that names an unregistered
/// strategy, holds a negative allocation or repeats a strategy named by an
/// earlier entry, and the error it draws.  An allocation is a map from
/// strategy to basis points, so a repeated strategy makes the list invalid
/// and draws `InvalidAllocationSum`.
pub open spec fn first_invalid_allocation(
    registered: Seq<AccountId>,
    allocs: Seq<(AccountId, i128)>,
) -> Option<Error>
    decreases allocs.len(),
{
    if allocs.len() == 0 {
        None
    } else {
        match first_invalid_allocation(registered, allocs.drop_last()) {
            Some(e) => Some(e),
            None => {
                let entry = allocs.last();
                if !registered.contains(entry.0) {
                    Some(Error::ZeroAddressStrategy)
                } else if entry.1 < 0 {
                    Some(Error::NegativeAllocation)
                } else if names_strategy(allocs.drop_last(), entry.0) {
                    Some(Error::InvalidAllocationSum)
                } else {
                    None
                }
            },
        }
    }
}

/// Sum of the basis points of `allocs`.
pub open spec fn allocation_sum(allocs: Seq<(AccountId, i128)>) -> int
    decreases allocs.len(),
{
    if allocs.len() == 0 {
        0
    } else {
        allocation_sum(allocs.drop_last()) + allocs.last().1
    }
}

/// The error that validating `allocs` against the `registered` strategies
/// draws: the first unregistered strategy, negative allocation or repeated
/// strategy, else a non-empty list whose total is not one hundred percent.
/// Only the empty list is exempt from the total.
pub open spec fn allocation_error(registered: Seq<AccountId>, allocs: Seq<(AccountId, i128)>) -> Option<
    Error,
> {
    match first_invalid_allocation(registered, allocs) {
        Some(e) => Some(e),
        None => if allocs.len() > 0 && allocation_sum(allocs) != BPS_SCALE {
            Some(Error::InvalidAllocationSum)
        } else {
            None
        },
    }
}

/// Without an invalid entry every allocation is non-negative and their sum is too.
pub proof fn lemma_valid_allocations_nonneg(registered: Seq<AccountId>, allocs: Seq<(AccountId, i128)>)
    requires
        first_invalid_allocation(registered, allocs) is None,
    ensures
        allocation_sum(allocs) >= 0,
        forall|i: int|
            0 <= i < allocs.len() ==> (#[trigger] allocs[i]).1 >= 0 && registered.contains(
                allocs[i].0,
            ),
        forall|i: int, j: int|
            0 <= i < j < allocs.len() ==> (#[trigger] allocs[i]).0 != (#[trigger] allocs[j]).0,
    decreases allocs.len(),
{
    if allocs.len() > 0 {
        let init = allocs.drop_last();
        assert(first_invalid_allocation(registered, init) is None);
        lemma_valid_allocations_nonneg(registered, init);
        let last = allocs.last();
        assert(registered.contains(last.0) && last.1 >= 0);
        assert forall|i: int| 0 <= i < allocs.len() implies (#[trigger] allocs[i]).1 >= 0
            && registered.contains(allocs[i].0) by {
            if i < allocs.len() - 1 {
                assert(allocs[i] == init[i]);
            } else {
                assert(allocs[i] == last);
            }
        }
        assert(!names_strategy(init, last.0));
        assert forall|i: int, j: int| 0 <= i < j < allocs.len() implies (#[trigger] allocs[i]).0
            != (#[trigger] allocs[j]).0 by {
            assert(allocs[i] == init[i]);
            if j < allocs.len() - 1 {
                assert(allocs[j] == init[j]);
            } else {
                assert(allocs[j] == last);
                if init[i].0 == last.0 {
                    assert(names_strategy(init, last.0));
                }
            }
        }
    }
}

/// An entry before `i` is for the strategy of entry `i`.
fn repeats_earlier(allocs: &Vec<(AccountId, i128)>, i: usize) -> (r: bool)
    requires
        i < allocs.len(),
    ensures
        r == names_strategy(allocs@.take(i as int), allocs@[i as int].0),
{
    let strategy = allocs[i].0;
    let mut j: usize = 0;
    while j < i
        invariant
            i < allocs.len(),
            j <= i,
            strategy == allocs@[i as int].0,
            forall|k: int| 0 <= k < j ==> allocs@[k].0 != strategy,
        decreases i - j,
    {
        if allocs[j].0 == strategy {
            assert(allocs@.take(i as int)[j as int].0 == strategy);
            return true;
        }
        j = j + 1;
    }
    proof {
        if names_strategy(allocs@.take(i as int), strategy) {
            let k = choose|k: int|
                0 <= k < allocs@.take(i as int).len() && #[trigger] allocs@.take(i as int)[k].0
                    == strategy;
            assert(allocs@[k].0 == strategy);
        }
    }
    false
}

/// Check `allocs` against the `registered` strategies.
pub fn validate_allocations(registered: &Vec<AccountId>, allocs: &Vec<(AccountId, i128)>) -> (r: Result<
    (),
    Error,
>)
    ensures
        match allocation_error(registered@, allocs@) {
            Some(e) => r == Err::<(), Error>(e),
            None => r is Ok,
        },
{
    let mut total: i128 = 0;
    let mut i: usize = 0;
    while i < allocs.len()
        invariant
            i <= allocs.len(),
            first_invalid_allocation(registered@, allocs@.take(i as int)) is None,
            allocation_sum(allocs@.take(i as int)) >= 0,
            total == if allocation_sum(allocs@.take(i as int)) > i128::MAX {
                i128::MAX as int
            } else {
                allocation_sum(allocs@.take(i as int))
            },
        decreases allocs.len() - i,
    {
        let (strategy, bps) = allocs[i];
        proof {
            assert(allocs@.take(i + 1).drop_last() =~= allocs@.take(i as int));
            assert(allocs@.take(i + 1).last() == allocs@[i as int]);
        }
        if !crate::vault::contains_account(registered, strategy) {
            proof {
                lemma_invalid_prefix_extends(registered@, allocs@, i as int + 1);
            }
            return Err(Error::ZeroAddressStrategy);
        }
        if bps < 0 {
            proof {
                lemma_invalid_prefix_extends(registered@, allocs@, i as int + 1);
            }
            return Err(Error::NegativeAllocation);
        }
        if repeats_earlier(allocs, i) {
            proof {
                lemma_invalid_prefix_extends(registered@, allocs@, i as int + 1);
            }
            return Err(Error::InvalidAllocationSum);
        }
        total = match total.checked_add(bps) {
            Some(t) => t,
            None => i128::MAX,
        };
        i = i + 1;
    }
    proof {
        assert(allocs@.take(allocs.len() as int) =~= allocs@);
    }
    if allocs.len() > 0 && total != BPS_SCALE {
        return Err(Error::InvalidAllocationSum);
    }
    Ok(())
}

/// An invalid entry in a prefix stays the first invalid entry of the whole.
pub proof fn lemma_invalid_prefix_extends(
    registered: Seq<AccountId>,
    allocs: Seq<(AccountId, i128)>,
    k: int,
)
    requires
        0 <= k <= allocs.len(),
        first_invalid_allocation(registered, allocs.take(k)) is Some,
    ensures
        first_invalid_allocation(registered, allocs) == first_invalid_allocation(
            registered,
            allocs.take(k),
        ),
    decreases allocs.len() - k,
{
    if k < allocs.len() {
        assert(allocs.take(k + 1).drop_last() =~= allocs.take(k));
        assert(first_invalid_allocation(registered, allocs.take(k + 1)) == first_invalid_allocation(
            registered,
            allocs.take(k),
        ));
        lemma_invalid_prefix_extends(registered, allocs, k + 1);
    } else {
        assert(allocs.take(k) =~= allocs);
    }
}

/// Index of the first allocation for `strategy`, if there is one.
pub open spec fn first_allocation(allocs: Seq<(AccountId, i128)>, strategy: AccountId) -> Option<int> {
    if exists|i: int|
        0 <= i < allocs.len() && allocs[i].0 == strategy && forall|j: int|
            0 <= j < i ==> allocs[j].0 != strategy {
        Some(
            choose|i: int|
                0 <= i < allocs.len() && allocs[i].0 == strategy && forall|j: int|
                    0 <= j < i ==> allocs[j].0 != strategy,
        )
    } else {
        None
    }
}

/// Basis points allotted to `strategy`: its first entry, zero when it has none.
pub open spec fn allocation_of(allocs: Seq<(AccountId, i128)>, strategy: AccountId) -> i128 {
    match first_allocation(allocs, strategy) {
        Some(i) => allocs[i].1,
        None => 0,
    }
}

/// No allocation is allotted in an empty list.
pub proof fn lemma_no_allocation(strategy: AccountId)
    ensures
        allocation_of(Seq::<(AccountId, i128)>::empty(), strategy) == 0,
{
}

/// Basis points allotted to `strategy` in `allocs` (see [`allocation_of`]).
pub fn lookup_allocation(allocs: &Vec<(AccountId, i128)>, strategy: AccountId) -> (r: i128)
    ensures
        r == allocation_of(allocs@, strategy),
{
    let mut i: usize = 0;
    while i < allocs.len()
        invariant
            i <= allocs.len(),
            forall|j: int| 0 <= j < i ==> allocs@[j].0 != strategy,
        decreases allocs.len() - i,
    {
        if allocs[i].0 == strategy {
            proof {
                let s = allocs@;
                let c = choose|c: int|
                    0 <= c < s.len() && s[c].0 == strategy && forall|j: int|
                        0 <= j < c ==> s[j].0 != strategy;
                assert(0 <= c < s.len() && s[c].0 == strategy && forall|j: int|
                    0 <= j < c ==> s[j].0 != strategy);
                if c < i {
                    assert(s[c].0 != strategy);
                } else if c > i {
                    assert(s[i as int].0 != strategy);
                }
            }
            return allocs[i].1;
        }
        i = i + 1;
    }
    proof {
        if first_allocation(allocs@, strategy) is Some {
            let c = first_allocation(allocs@, strategy)->0;
            assert(allocs@[c].0 == strategy);
        }
    }
    0
}

/// What the host does with one strategy during a rebalance.
#[derive(Clone, Copy, Debug, PartialEq, Eq, Structural)]
pub enum Move {
    /// Send this many tokens from the vault to the strategy and deposit them.
    Deposit(i128),
    /// Withdraw this many tokens from the strategy back to the vault.
    Withdraw(i128),
    /// The strategy is on target.
    Hold,
}

/// The move that brings a strategy holding `current` to its share `bps` of
/// `total_assets`, or `None` where the vault aborts.
pub open spec fn rebalance_move_of(total_assets: i128, bps: i128, current: i128) -> Option<Move> {
    if !bps_target_defined(total_assets as int, bps as int) {
        None
    } else {
        let target = bps_target(total_assets as int, bps as int);
        if target > current {
            if fits(target - current) {
                Some(Move::Deposit((target - current) as i128))
            } else {
                None
            }
        } else if target < current {
            if fits(current - target) {
                Some(Move::Withdraw((current - target) as i128))
            } else {
                None
            }
        } else {
            Some(Move::Hold)
        }
    }
}

/// The move for one strategy during a rebalance (see [`rebalance_move_of`]).
pub fn rebalance_move(total_assets: i128, bps: i128, current: i128) -> (r: Option<Move>)
    ensures
        r == rebalance_move_of(total_assets, bps, current),
{
    if total_assets.checked_mul(bps).is_none() {
        return None;
    }
    let target = target_allocation(total_assets, bps);
    if target > current {
        match target.checked_sub(current) {
            Some(d) => Some(Move::Deposit(d)),
            None => None,
        }
    } else if target < current {
        match current.checked_sub(target) {
            Some(d) => Some(Move::Withdraw(d)),
            None => None,
        }
    } else {
        Some(Move::Hold)
    }
}

/// A strategy whose balance after a rebalance strays too far from target.
#[derive(Clone, Copy, Debug, PartialEq, Eq, Structural)]
pub struct SlippageBreach {
    pub expected: i128,
    pub actual: i128,
    pub slippage_bps: i128,
}

/// The verdict on a strategy that holds `actual` after a rebalance toward
/// `bps` of `total_assets`: `Some(Ok(()))` within `max_slippage_bps` (or when
/// its target is not positive), `Some(Err(..))` beyond it, `None` where the
/// vault aborts.
pub open spec fn slippage_verdict(total_assets: i128, bps: i128, actual: i128, max_slippage_bps: u32) -> Option<
    Result<(), SlippageBreach>,
> {
    if !bps_target_defined(total_assets as int, bps as int) {
        None
    } else {
        let expected = bps_target(total_assets as int, bps as int);
        if expected <= 0 {
            Some(Ok(()))
        } else {
            let diff = if actual > expected {
                actual - expected
            } else {
                expected - actual
            };
            if !fits(diff) || !fits(diff * BPS_SCALE) {
                None
            } else {
                let slippage = trunc_div(diff * BPS_SCALE, expected);
                if slippage > max_slippage_bps {
                    Some(
                        Err(
                            SlippageBreach {
                                expected: expected as i128,
                                actual,
                                slippage_bps: slippage as i128,
                            },
                        ),
                    )
                } else {
                    Some(Ok(()))
                }
            }
        }
    }
}

/// Check one strategy's balance after a rebalance (see [`slippage_verdict`]).
pub fn check_slippage(total_assets: i128, bps: i128, actual: i128, max_slippage_bps: u32) -> (r: Option<
    Result<(), SlippageBreach>,
>)
    ensures
        r == slippage_verdict(total_assets, bps, actual, max_slippage_bps),
{
    if total_assets.checked_mul(bps).is_none() {
        return None;
    }
    let expected = target_allocation(total_assets, bps);
    if expected <= 0 {
        return Some(Ok(()));
    }
    let diff = if actual > expected {
        match actual.checked_sub(expected) {
            Some(d) => d,
            None => return None,
        }
    } else {
        match expected.checked_sub(actual) {
            Some(d) => d,
            None => return None,
        }
    };
    let scaled = match diff.checked_mul(BPS_SCALE) {
        Some(s) => s,
        None => return None,
    };
    proof {
        assert(scaled >= 0) by (nonlinear_arith)
            requires
                diff >= 0,
                scaled == diff * 10_000,
        ;
        assert(trunc_div(scaled as int, expected as int) <= scaled) by (nonlinear_arith)
            requires
                scaled >= 0,
                expected > 0,
        {
            if scaled > 0 {
                assert(scaled as int / expected as int <= scaled as int);
            }
        }
    }
    let slippage = scaled.checked_div(expected).unwrap();
    if slippage > max_slippage_bps as i128 {
        Some(Err(SlippageBreach { expected, actual, slippage_bps: slippage }))
    } else {
        Some(Ok(()))
    }
}

/// The entry `i` of a rebalance passes its slippage check: its strategy's
/// balance `finals[i]` is within `max_slippage_bps` of its target.
pub open spec fn slippage_passes(
    entries: Seq<(AccountId, i128)>,
    total_assets: i128,
    max_slippage_bps: u32,
    finals: Seq<i128>,
    i: int,
) -> bool {
    slippage_verdict(total_assets, entries[i].1, finals[i], max_slippage_bps) == Some(
        Ok::<(), SlippageBreach>(()),
    )
}

/// Index of the first entry of a rebalance that does not pass its slippage
/// check, if there is one.
pub open spec fn first_unsettled(
    entries: Seq<(AccountId, i128)>,
    total_assets: i128,
    max_slippage_bps: u32,
    finals: Seq<i128>,
) -> Option<int> {
    if exists|i: int|
        0 <= i < entries.len() && !slippage_passes(entries, total_assets, max_slippage_bps, finals, i)
            && forall|j: int|
            0 <= j < i ==> slippage_passes(entries, total_assets, max_slippage_bps, finals, j) {
        Some(
            choose|i: int|
                0 <= i < entries.len() && !slippage_passes(
                    entries,
                    total_assets,
                    max_slippage_bps,
                    finals,
                    i,
                ) && forall|j: int|
                    0 <= j < i ==> slippage_passes(entries, total_assets, max_slippage_bps, finals, j),
        )
    } else {
        None
    }
}

/// The outcome of checking every strategy of a rebalance, in order, against
/// its final balance: `Some(Ok(()))` when all pass, the strategy and breach
/// of the first that strays too far, `None` where the vault aborts first.
pub open spec fn rebalance_outcome(
    entries: Seq<(AccountId, i128)>,
    total_assets: i128,
    max_slippage_bps: u32,
    finals: Seq<i128>,
) -> Option<Result<(), (AccountId, SlippageBreach)>> {
    match first_unsettled(entries, total_assets, max_slippage_bps, finals) {
        None => Some(Ok(())),
        Some(i) => match slippage_verdict(total_assets, entries[i].1, finals[i], max_slippage_bps) {
            Some(Err(b)) => Some(Err((entries[i].0, b))),
            _ => None,
        },
    }
}

/// The first failing entry is `i` when every entry before it passes.
proof fn lemma_first_unsettled_at(
    entries: Seq<(AccountId, i128)>,
    total_assets: i128,
    max_slippage_bps: u32,
    finals: Seq<i128>,
    i: int,
)
    requires
        0 <= i < entries.len(),
        !slippage_passes(entries, total_assets, max_slippage_bps, finals, i),
        forall|j: int|
            0 <= j < i ==> slippage_passes(entries, total_assets, max_slippage_bps, finals, j),
    ensures
        first_unsettled(entries, total_assets, max_slippage_bps, finals) == Some(i),
{
    let c = choose|c: int|
        0 <= c < entries.len() && !slippage_passes(entries, total_assets, max_slippage_bps, finals, c)
            && forall|j: int|
            0 <= j < c ==> slippage_passes(entries, total_assets, max_slippage_bps, finals, j);
    assert(0 <= c < entries.len() && !slippage_passes(entries, total_assets, max_slippage_bps, finals, c)
        && forall|j: int|
        0 <= j < c ==> slippage_passes(entries, total_assets, max_slippage_bps, finals, j));
    if c < i {
        assert(slippage_passes(entries, total_assets, max_slippage_bps, finals, c));
    } else if c > i {
        assert(slippage_passes(entries, total_assets, max_slippage_bps, finals, i));
    }
}

/// Check every strategy of `order`, in order, against its balance `finals[i]`
/// after the funds moved (see [`rebalance_outcome`]).  The rebalance stands
/// exactly when the result is `Some(Ok(()))`, that is when every strategy is
/// within the order's slippage bound.
pub fn check_rebalance(order: &RebalanceOrder, finals: &Vec<i128>) -> (r: Option<
    Result<(), (AccountId, SlippageBreach)>,
>)
    requires
        finals.len() == order.allocations.len(),
    ensures
        r == rebalance_outcome(
            order.allocations@,
            order.total_assets,
            order.max_slippage_bps,
            finals@,
        ),
        r == Some(Ok::<(), (AccountId, SlippageBreach)>(())) <==> forall|i: int|
            0 <= i < order.allocations.len() ==> slippage_passes(
                order.allocations@,
                order.total_assets,
                order.max_slippage_bps,
                finals@,
                i,
            ),
{
    let ghost entries = order.allocations@;
    let ghost ta = order.total_assets;
    let ghost max = order.max_slippage_bps;
    let n = order.allocations.len();
    let mut i: usize = 0;
    while i < n
        invariant
            n == order.allocations.len() == finals.len(),
            entries == order.allocations@,
            ta == order.total_assets,
            max == order.max_slippage_bps,
            i <= n,
            forall|j: int| 0 <= j < i ==> slippage_passes(entries, ta, max, finals@, j),
        decreases n - i,
    {
        let (strategy, bps) = order.allocations[i];
        match check_slippage(order.total_assets, bps, finals[i], order.max_slippage_bps) {
            Some(Ok(())) => {},
            Some(Err(breach)) => {
                proof {
                    lemma_first_unsettled_at(entries, ta, max, finals@, i as int);
                }
                return Some(Err((strategy, breach)));
            },
            None => {
                proof {
                    lemma_first_unsettled_at(entries, ta, max, finals@, i as int);
                }
                return None;
            },
        }
        i = i + 1;
    }
    proof {
        if first_unsettled(entries, ta, max, finals@) is Some {
            let c = first_unsettled(entries, ta, max, finals@)->0;
            assert(!slippage_passes(entries, ta, max, finals@, c));
        }
    }
    Some(Ok(()))
}

/// A strategy holding `actual` against a positive target `expected` is off
/// by more than a tenth of the target.
pub open spec fn deviates(expected: int, actual: int) -> bool {
    expected > 0 && {
        let d = actual - expected;
        (if d < 0 {
            -d
        } else {
            d
        }) > trunc_div(expected, 10)
    }
}

/// The vault measures the deviation of `actual` from `expected` without
/// aborting.
pub open spec fn deviation_defined(expected: int, actual: int) -> bool {
    expected > 0 ==> fits(actual - expected) && actual - expected != i128::MIN
}

/// `actual` deviates from a positive `expected` by more than ten percent (see
/// [`deviates`]).
pub fn deviates_from(expected: i128, actual: i128) -> (r: bool)
    requires
        deviation_defined(expected as int, actual as int),
    ensures
        r == deviates(expected as int, actual as int),
{
    if expected > 0 {
        let threshold = expected.checked_div(10).unwrap();
        let d = actual - expected;
        let magnitude = if d < 0 {
            -d
        } else {
            d
        };
        magnitude > threshold
    } else {
        false
    }
}

} // verus!
