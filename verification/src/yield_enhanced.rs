use vstd::prelude::*;
use vstd::hash_map::HashMapWithView;
use crate::address::Address;
use crate::contract::Invocation;
use crate::error::Error;
use crate::grant::{Grant, claimable_after, grant_wf, settle_outcome, settle_grant, fits_i128, completed_mask, min_int, lemma_settle_well_formed};
use crate::status::{flag_set, has_status, set_status, clear_status, STATUS_ACTIVE, STATUS_COMPLETED};
use crate::yield_treasury::{
    YieldPosition, TreasuryConfig, YieldMetrics, strategy_apy, get_strategy_apy,
    updated_position, update_yield_position,
    divestment_split, split_divestment, trunc_div, position_consistent, BASIS_POINTS, YIELD_STRATEGY_STELLAR_USDC,
};

verus! {

/// The keys under which the yield-enhanced contract keeps its state.
#[derive(Clone, Copy, Debug, PartialEq, Eq, Structural)]
pub enum EnhancedDataKey {
    Admin,
    Grant(u64),
    YieldConfig,
    YieldPosition,
    YieldMetrics,
    ReserveBalance,
    YieldToken,
    TreasuryEnabled,
}

/// Why an operation of the yield-enhanced grant contract was refused.
#[derive(Clone, Copy, Debug, PartialEq, Eq, Structural)]
pub enum EnhancedError {
    NotInitialized,
    AlreadyInitialized,
    NotAuthorized,
    GrantNotFound,
    GrantAlreadyExists,
    InvalidRate,
    InvalidAmount,
    InvalidState,
    MathOverflow,
    InvalidStatusTransition,
    YieldNotEnabled,
    InsufficientReserve,
    InvestmentActive,
    InvestmentInactive,
    InvalidStrategy,
    YieldCalculationFailed,
    EmergencyMode,
    InsufficientInvestment,
}

/// The error of the grant contract with the same name.
pub open spec fn grant_error_spec(e: Error) -> EnhancedError {
    match e {
        Error::NotInitialized => EnhancedError::NotInitialized,
        Error::AlreadyInitialized => EnhancedError::AlreadyInitialized,
        Error::NotAuthorized => EnhancedError::NotAuthorized,
        Error::GrantNotFound => EnhancedError::GrantNotFound,
        Error::GrantAlreadyExists => EnhancedError::GrantAlreadyExists,
        Error::InvalidRate => EnhancedError::InvalidRate,
        Error::InvalidAmount => EnhancedError::InvalidAmount,
        Error::InvalidState => EnhancedError::InvalidState,
        Error::MathOverflow => EnhancedError::MathOverflow,
        Error::InvalidStatusTransition => EnhancedError::InvalidStatusTransition,
    }
}

/// The error of the grant contract with the same name.
pub fn grant_error(e: Error) -> (r: EnhancedError)
    ensures
        r == grant_error_spec(e),
{
    match e {
        Error::NotInitialized => EnhancedError::NotInitialized,
        Error::AlreadyInitialized => EnhancedError::AlreadyInitialized,
        Error::NotAuthorized => EnhancedError::NotAuthorized,
        Error::GrantNotFound => EnhancedError::GrantNotFound,
        Error::GrantAlreadyExists => EnhancedError::GrantAlreadyExists,
        Error::InvalidRate => EnhancedError::InvalidRate,
        Error::InvalidAmount => EnhancedError::InvalidAmount,
        Error::InvalidState => EnhancedError::InvalidState,
        Error::MathOverflow => EnhancedError::MathOverflow,
        Error::InvalidStatusTransition => EnhancedError::InvalidStatusTransition,
    }
}

/// A grant with its yield options: whether its funds may be invested,
/// whether investments are divested automatically to pay it, and the share of
/// its claimable amount (in basis points) to keep available.
#[derive(Clone, Copy, Debug, PartialEq, Eq)]
pub struct EnhancedGrant {
    pub base_grant: Grant,
    pub yield_enabled: bool,
    pub auto_yield_invest: bool,
    pub min_reserve_percentage: i128,
}

/// The state of the yield-enhanced grant contract: its grants (and their ids
/// in creation order) together with an optional treasury that invests idle
/// funds.
pub struct YieldEnhancedGrantContract {
    pub admin: Option<Address>,
    pub grants: HashMapWithView<u64, EnhancedGrant>,
    pub grant_ids: Vec<u64>,
    pub yield_token: Option<Address>,
    pub treasury_enabled: bool,
    pub config: Option<TreasuryConfig>,
    pub position: Option<YieldPosition>,
    pub metrics: Option<YieldMetrics>,
    pub reserve_balance: Option<i128>,
}

/// The yield-enhanced contract's state as mathematical values.
pub struct EnhancedContractView {
    pub admin: Option<Address>,
    pub grants: Map<u64, EnhancedGrant>,
    pub grant_ids: Seq<u64>,
    pub yield_token: Option<Address>,
    pub treasury_enabled: bool,
    pub config: Option<TreasuryConfig>,
    pub position: Option<YieldPosition>,
    pub metrics: Option<YieldMetrics>,
    pub reserve_balance: Option<i128>,
}

impl View for YieldEnhancedGrantContract {
    type V = EnhancedContractView;

    open spec fn view(&self) -> EnhancedContractView {
        EnhancedContractView {
            admin: self.admin,
            grants: self.grants@,
            grant_ids: self.grant_ids@,
            yield_token: self.yield_token,
            treasury_enabled: self.treasury_enabled,
            config: self.config,
            position: self.position,
            metrics: self.metrics,
            reserve_balance: self.reserve_balance,
        }
    }
}

/// The sum of the claimable amounts of the grants `ids`.
pub open spec fn claimable_sum(ids: Seq<u64>, grants: Map<u64, EnhancedGrant>) -> int
    decreases ids.len(),
{
    if ids.len() == 0 {
        0
    } else {
        claimable_sum(ids.drop_last(), grants) + grants[ids.last()].base_grant.claimable
    }
}

impl EnhancedContractView {
    /// What every reachable state keeps: every grant is well-formed, the
    /// list of ids names each grant exactly once, and an open position is
    /// worth its principal plus its accrued yield.
    pub open spec fn wf(self) -> bool {
        &&& forall|id: u64| #[trigger]
            self.grants.contains_key(id) ==> grant_wf(self.grants[id].base_grant)
        &&& self.grant_ids.no_duplicates()
        &&& forall|i: int|
            0 <= i < self.grant_ids.len() ==> self.grants.contains_key(#[trigger] self.grant_ids[i])
        &&& forall|id: u64| #[trigger] self.grants.contains_key(id) ==> self.grant_ids.contains(id)
        &&& position_consistent(self.position)
    }

    /// Why `caller` may not act as administrator, if it may not.
    pub open spec fn admin_refusal(self, caller: Address) -> Option<EnhancedError> {
        match self.admin {
            None => Some(EnhancedError::NotInitialized),
            Some(a) => if a == caller {
                None
            } else {
                Some(EnhancedError::NotAuthorized)
            },
        }
    }

    /// The claimable amounts of all grants, summed.
    pub open spec fn total_claimable(self) -> int {
        claimable_sum(self.grant_ids, self.grants)
    }

    /// The reserve, counting an unset reserve as zero.
    pub open spec fn reserve_or_zero(self) -> int {
        match self.reserve_balance {
            Some(r) => r as int,
            None => 0,
        }
    }
}

/// What `emergency_divest_for_withdrawal` leaves of the position and the
/// reserve when `needed` more liquidity is wanted at `now`; `None` for a time
/// before the position's last update.
///
/// The position's yield is first brought up to `now` (see
/// [`enhanced_position_at`]); the smaller of `needed` and its value is taken
/// out and added to the reserve (an unset reserve counting as zero). The
/// position closes when that is all of it; otherwise what is taken out is
/// split between principal and yield as a divestment splits it (see
/// [`crate::yield_treasury::divestment_split`]), so principal plus yield
/// still make up the value that is left.
pub open spec fn emergency_divest_outcome(s: EnhancedContractView, needed: i128, now: u64) -> Option<
    Result<(Option<YieldPosition>, i128), EnhancedError>,
> {
    match s.position {
        None => Some(Err(EnhancedError::InvestmentInactive)),
        Some(p) => if now < p.last_yield_update {
            None
        } else {
            match enhanced_position_at(p, now) {
                Err(e) => Some(Err(e)),
                Ok(q) => {
                    let d = min_int(needed as int, q.current_value as int);
                    let kept: Result<Option<YieldPosition>, EnhancedError> = if d >= q.current_value {
                        Ok(None)
                    } else {
                        match divestment_split(q, d as i128) {
                            Err(_) => Err(EnhancedError::MathOverflow),
                            Ok((ir, yr)) => if !fits_i128(q.invested_amount - ir) || !fits_i128(
                                q.accrued_yield - yr,
                            ) {
                                Err(EnhancedError::MathOverflow)
                            } else {
                                Ok(
                                    Some(
                                        YieldPosition {
                                            invested_amount: (q.invested_amount - ir) as i128,
                                            accrued_yield: (q.accrued_yield - yr) as i128,
                                            current_value: (q.current_value - d) as i128,
                                            ..q
                                        },
                                    ),
                                )
                            },
                        }
                    };
                    match kept {
                        Err(e) => Some(Err(e)),
                        Ok(np) => if !fits_i128(s.reserve_or_zero() + d) {
                            Some(Err(EnhancedError::MathOverflow))
                        } else {
                            Some(Ok((np, (s.reserve_or_zero() + d) as i128)))
                        },
                    }
                },
            }
        },
    }
}

/// What `enhanced_withdraw` leaves, or why it refuses; `None` when the
/// computation would leave the machine's integers.
///
/// As for a plain withdrawal, the recipient of the active grant takes
/// `amount`, never more than is left unpaid of its total (see
/// [`claimable_after`]). When the treasury is enabled and the grant
/// both allows yield and auto-divestment, and the balance beyond what the
/// grant has claimable does not cover `amount`, the shortfall is first
/// divested (see [`emergency_divest_outcome`]).
pub open spec fn enhanced_withdraw_outcome(
    s: EnhancedContractView,
    caller: Address,
    now: u64,
    id: u64,
    amount: i128,
    balance: i128,
) -> Option<Result<EnhancedContractView, EnhancedError>> {
    if amount <= 0 {
        Some(Err(EnhancedError::InvalidAmount))
    } else if !s.grants.contains_key(id) {
        Some(Err(EnhancedError::GrantNotFound))
    } else {
        let g = s.grants[id];
        let base = g.base_grant;
        if !flag_set(base.status_mask, STATUS_ACTIVE) {
            Some(Err(EnhancedError::InvalidState))
        } else if caller != base.recipient {
            Some(Err(EnhancedError::NotAuthorized))
        } else {
            match settle_outcome(base, now) {
                Err(e) => Some(Err(grant_error_spec(e))),
                Ok(h) => if amount > h.total_amount - h.withdrawn {
                    Some(Err(EnhancedError::InvalidAmount))
                } else {
                    let funds: Option<Result<(Option<YieldPosition>, Option<i128>), EnhancedError>> =
                        if s.treasury_enabled && g.yield_enabled && g.auto_yield_invest {
                        if s.yield_token is None {
                            Some(Err(EnhancedError::YieldNotEnabled))
                        } else if !fits_i128(balance - h.claimable) {
                            Some(Err(EnhancedError::InsufficientReserve))
                        } else if balance - h.claimable < amount {
                            let needed = amount - (balance - h.claimable);
                            if !fits_i128(needed) {
                                None
                            } else {
                                match emergency_divest_outcome(s, needed as i128, now) {
                                    None => None,
                                    Some(Err(e)) => Some(Err(e)),
                                    Some(Ok((p, r))) => Some(Ok((p, Some(r)))),
                                }
                            }
                        } else {
                            Some(Ok((s.position, s.reserve_balance)))
                        }
                    } else {
                        Some(Ok((s.position, s.reserve_balance)))
                    };
                    match funds {
                        None => None,
                        Some(Err(e)) => Some(Err(e)),
                        Some(Ok((p, r))) => if s.yield_token is None {
                            Some(Err(EnhancedError::YieldNotEnabled))
                        } else {
                            let withdrawn = h.withdrawn + amount;
                            let claimable = claimable_after(h.claimable as int, amount as int);
                            let nb = Grant {
                                withdrawn: withdrawn as i128,
                                claimable: claimable as i128,
                                status_mask: if withdrawn + claimable == h.total_amount {
                                    completed_mask(h.status_mask)
                                } else {
                                    h.status_mask
                                },
                                ..h
                            };
                            Some(
                                Ok(
                                    EnhancedContractView {
                                        grants: s.grants.insert(
                                            id,
                                            EnhancedGrant { base_grant: nb, ..g },
                                        ),
                                        position: p,
                                        reserve_balance: r,
                                        ..s
                                    },
                                ),
                            )
                        },
                    }
                },
            }
        }
    }
}

/// What `invest_idle_funds` leaves, or why it refuses.
///
/// Investing `amount` out of a balance of `balance` must leave at least a
/// fifth of all grants' claimable amounts in the balance; the whole amount
/// becomes the principal of a new position, the reserve shrinks by it, and
/// the figures count one more investment.
pub open spec fn enhanced_invest_outcome(
    s: EnhancedContractView,
    caller: Address,
    now: u64,
    amount: i128,
    strategy: Option<u32>,
    balance: i128,
) -> Result<EnhancedContractView, EnhancedError> {
    if s.admin_refusal(caller) is Some {
        Err(s.admin_refusal(caller)->Some_0)
    } else {
        enhanced_investment_outcome(s, now, amount, strategy, balance)
    }
}

/// What investing `amount` out of a balance of `balance` leaves, or why it
/// is refused, whoever asks (see [`enhanced_invest_outcome`]).
pub open spec fn enhanced_investment_outcome(
    s: EnhancedContractView,
    now: u64,
    amount: i128,
    strategy: Option<u32>,
    balance: i128,
) -> Result<EnhancedContractView, EnhancedError> {
    if !s.treasury_enabled {
        Err(EnhancedError::YieldNotEnabled)
    } else if amount <= 0 {
        Err(EnhancedError::InvalidAmount)
    } else if s.yield_token is None {
        Err(EnhancedError::YieldNotEnabled)
    } else if !fits_i128(s.total_claimable()) || !fits_i128(s.total_claimable() * 2000) {
        Err(EnhancedError::MathOverflow)
    } else if !fits_i128(balance - amount) || balance - amount < trunc_div(
        s.total_claimable() * 2000,
        10000,
    ) {
        Err(EnhancedError::InsufficientReserve)
    } else if s.position is Some {
        Err(EnhancedError::InvestmentActive)
    } else if amount > balance {
        Err(EnhancedError::InsufficientReserve)
    } else if s.config is None {
        Err(EnhancedError::YieldNotEnabled)
    } else {
        let strat = match strategy {
            Some(x) => x,
            None => s.config->Some_0.yield_strategy,
        };
        if strategy_apy(strat) is None {
            Err(EnhancedError::InvalidStrategy)
        } else if !fits_i128(s.reserve_or_zero() - amount) {
            Err(EnhancedError::InsufficientReserve)
        } else if s.metrics is None {
            Err(EnhancedError::YieldNotEnabled)
        } else if !fits_i128(s.metrics->Some_0.total_invested + amount) {
            Err(EnhancedError::MathOverflow)
        } else {
            let m = s.metrics->Some_0;
            let apy = strategy_apy(strat)->Some_0;
            Ok(
                EnhancedContractView {
                    position: Some(
                        YieldPosition {
                            strategy: strat,
                            invested_amount: amount,
                            current_value: amount,
                            accrued_yield: 0,
                            invested_at: now,
                            last_yield_update: now,
                            apy,
                        },
                    ),
                    reserve_balance: Some((s.reserve_or_zero() - amount) as i128),
                    metrics: Some(
                        YieldMetrics {
                            total_invested: (m.total_invested + amount) as i128,
                            investment_count: (m.investment_count + 1) as u32,
                            current_apy: apy,
                            last_yield_calculation: now,
                            ..m
                        },
                    ),
                    ..s
                },
            )
        }
    }
}

/// The position brought up to `now` as `divest_funds` and
/// `get_yield_position` do: unchanged when no time has passed since its last
/// update.
pub open spec fn enhanced_position_at(p: YieldPosition, now: u64) -> Result<YieldPosition, EnhancedError> {
    if now > p.last_yield_update {
        match updated_position(p, now) {
            Err(_) => Err(EnhancedError::MathOverflow),
            Ok(q) => Ok(q),
        }
    } else {
        Ok(p)
    }
}

/// What `divest_funds` leaves, or why it refuses; as for the treasury (see
/// [`crate::yield_treasury::divest_outcome`]), with an unset reserve counted
/// as zero.
pub open spec fn enhanced_divest_outcome(
    s: EnhancedContractView,
    caller: Address,
    now: u64,
    amount: Option<i128>,
) -> Result<EnhancedContractView, EnhancedError> {
    if s.admin_refusal(caller) is Some {
        Err(s.admin_refusal(caller)->Some_0)
    } else if !s.treasury_enabled {
        Err(EnhancedError::YieldNotEnabled)
    } else if s.position is None {
        Err(EnhancedError::InvestmentInactive)
    } else {
        match enhanced_position_at(s.position->Some_0, now) {
            Err(e) => Err(e),
            Ok(q) => {
                let request: Result<i128, EnhancedError> = match amount {
                    Some(a) => if a <= 0 {
                        Err(EnhancedError::InvalidAmount)
                    } else if a > q.current_value {
                        Err(EnhancedError::InsufficientInvestment)
                    } else {
                        Ok(a)
                    },
                    None => Ok(q.current_value),
                };
                match request {
                    Err(e) => Err(e),
                    Ok(d) => if !fits_i128(q.current_value - d) {
                        Err(EnhancedError::MathOverflow)
                    } else {
                        match divestment_split(q, d) {
                            Err(_) => Err(EnhancedError::MathOverflow),
                            Ok((ir, yr)) => if !fits_i128(q.invested_amount - ir) || !fits_i128(
                                q.accrued_yield - yr,
                            ) {
                                Err(EnhancedError::MathOverflow)
                            } else if !fits_i128(s.reserve_or_zero() + d) {
                                Err(EnhancedError::MathOverflow)
                            } else if s.metrics is None {
                                Err(EnhancedError::YieldNotEnabled)
                            } else if !fits_i128(s.metrics->Some_0.total_yield_earned + yr) {
                                Err(EnhancedError::MathOverflow)
                            } else {
                                let remaining = q.current_value - d;
                                let m = s.metrics->Some_0;
                                Ok(
                                    EnhancedContractView {
                                        position: if remaining == 0 {
                                            None
                                        } else {
                                            Some(
                                                YieldPosition {
                                                    invested_amount: (q.invested_amount - ir) as i128,
                                                    accrued_yield: (q.accrued_yield - yr) as i128,
                                                    current_value: remaining as i128,
                                                    ..q
                                                },
                                            )
                                        },
                                        reserve_balance: Some((s.reserve_or_zero() + d) as i128),
                                        metrics: Some(
                                            YieldMetrics {
                                                total_yield_earned: (m.total_yield_earned
                                                    + yr) as i128,
                                                current_apy: if remaining == 0 {
                                                    0
                                                } else {
                                                    m.current_apy
                                                },
                                                last_yield_calculation: now,
                                                ..m
                                            },
                                        ),
                                        ..s
                                    },
                                )
                            },
                        }
                    },
                }
            },
        }
    }
}

/// What `auto_invest_idle_funds` would invest out of a balance of `balance`,
/// or why it refuses: what the balance holds beyond the reserve, but no more
/// than the configured maximum share of the balance.
pub open spec fn enhanced_auto_amount(s: EnhancedContractView, balance: i128) -> Result<int, EnhancedError> {
    if !s.treasury_enabled || s.config is None {
        Err(EnhancedError::YieldNotEnabled)
    } else if !s.config->Some_0.auto_invest {
        Err(EnhancedError::InvalidState)
    } else if s.position is Some {
        Err(EnhancedError::InvestmentActive)
    } else if s.yield_token is None {
        Err(EnhancedError::YieldNotEnabled)
    } else if !fits_i128(balance - s.reserve_or_zero()) {
        Err(EnhancedError::InsufficientReserve)
    } else if !fits_i128(balance * s.config->Some_0.max_investment_ratio) {
        Err(EnhancedError::MathOverflow)
    } else {
        let idle = balance - s.reserve_or_zero();
        let max = trunc_div(balance * s.config->Some_0.max_investment_ratio, 10000);
        Ok(
            if idle > max {
                max
            } else {
                idle
            },
        )
    }
}


/// The claimable amounts of `ids` are summed in order; once all claimable
/// amounts are non-negative, no prefix sums to more than the whole.
proof fn lemma_claimable_sum_prefix(ids: Seq<u64>, grants: Map<u64, EnhancedGrant>, k: int)
    requires
        0 <= k <= ids.len(),
        forall|i: int| 0 <= i < ids.len() ==> grants[#[trigger] ids[i]].base_grant.claimable >= 0,
    ensures
        0 <= claimable_sum(ids.take(k), grants) <= claimable_sum(ids, grants),
    decreases ids.len(),
{
    if k < ids.len() {
        assert(ids.drop_last().take(k) =~= ids.take(k));
        assert forall|i: int| 0 <= i < ids.drop_last().len() implies grants[#[trigger] ids.drop_last()[i]].base_grant.claimable >= 0 by {
            assert(ids.drop_last()[i] == ids[i]);
        }
        lemma_claimable_sum_prefix(ids.drop_last(), grants, k);
        assert(grants[ids[ids.len() - 1]].base_grant.claimable >= 0);
    } else {
        assert(ids.take(k) =~= ids);
        if ids.len() > 0 {
            assert forall|i: int| 0 <= i < ids.drop_last().len() implies grants[#[trigger] ids.drop_last()[i]].base_grant.claimable >= 0 by {
                assert(ids.drop_last()[i] == ids[i]);
            }
            lemma_claimable_sum_prefix(ids.drop_last(), grants, ids.len() - 1);
            assert(grants[ids[ids.len() - 1]].base_grant.claimable >= 0);
        }
    }
}

/// What is left of `total_balance` for investment once the reserve of
/// `min_reserve_percentage` basis points of `total_claimable` is kept.
#[allow(dead_code)]
fn calculate_available_for_investment(
    total_balance: i128,
    total_claimable: i128,
    min_reserve_percentage: i128,
) -> (r: Result<i128, EnhancedError>)
    ensures
        !fits_i128(total_claimable * min_reserve_percentage) ==> r == Err::<i128, EnhancedError>(
            EnhancedError::MathOverflow,
        ),
        fits_i128(total_claimable * min_reserve_percentage) ==> ({
            let available = total_balance - trunc_div(
                total_claimable * min_reserve_percentage,
                10000,
            );
            &&& fits_i128(available) ==> r == Ok::<i128, EnhancedError>(available as i128)
            &&& !fits_i128(available) ==> r == Err::<i128, EnhancedError>(
                EnhancedError::InsufficientReserve,
            )
        }),
{
    let product = match total_claimable.checked_mul(min_reserve_percentage) {
        Some(v) => v,
        None => return Err(EnhancedError::MathOverflow),
    };
    let min_reserve = match product.checked_div(BASIS_POINTS) {
        Some(v) => v,
        None => return Err(EnhancedError::MathOverflow),
    };
    match total_balance.checked_sub(min_reserve) {
        Some(v) => Ok(v),
        None => Err(EnhancedError::InsufficientReserve),
    }
}

impl YieldEnhancedGrantContract {
    /// The state invariant (see [`EnhancedContractView::wf`]).
    pub open spec fn wf(&self) -> bool {
        self@.wf()
    }

    /// A contract that has not been initialized and holds no grants.
    pub fn new() -> (c: YieldEnhancedGrantContract)
        ensures
            c.wf(),
            c@.admin is None,
            c@.grants == Map::<u64, EnhancedGrant>::empty(),
            !c@.treasury_enabled,
            c@.yield_token is None && c@.config is None && c@.position is None && c@.metrics is None
                && c@.reserve_balance is None,
    {
        let c = YieldEnhancedGrantContract {
            admin: None,
            grants: HashMapWithView::new(),
            grant_ids: Vec::new(),
            yield_token: None,
            treasury_enabled: false,
            config: None,
            position: None,
            metrics: None,
            reserve_balance: None,
        };
        assert(c@.grant_ids =~= Seq::<u64>::empty());
        c
    }

    fn require_admin(&self, caller: &Address) -> (r: Result<(), EnhancedError>)
        ensures
            match self@.admin_refusal(*caller) {
                Some(e) => r == Err::<(), EnhancedError>(e),
                None => r is Ok,
            },
    {
        match &self.admin {
            None => Err(EnhancedError::NotInitialized),
            Some(a) => if a.same_as(caller) {
                Ok(())
            } else {
                Err(EnhancedError::NotAuthorized)
            },
        }
    }

    fn require_treasury_enabled(&self) -> (r: Result<(), EnhancedError>)
        ensures
            self.treasury_enabled ==> (r is Ok),
            !self.treasury_enabled ==> r == Err::<(), EnhancedError>(EnhancedError::YieldNotEnabled),
    {
        if !self.treasury_enabled {
            return Err(EnhancedError::YieldNotEnabled);
        }
        Ok(())
    }

    /// Sets up the contract for `admin`, who must authorize the call. With
    /// `enable_treasury`, the treasury holds the token at
    /// `yield_token_address` and starts with a default configuration (a fifth
    /// kept in reserve, at most four fifths invested, no automatic investment,
    /// USDC lending, emergency withdrawal allowed), zero figures as of now and
    /// an empty reserve. Refused once initialized.
    pub fn initialize(
        &mut self,
        inv: &Invocation,
        admin: Address,
        yield_token_address: Address,
        enable_treasury: bool,
    ) -> (r: Result<(), EnhancedError>)
        requires
            old(self).wf(),
        ensures
            final(self).wf(),
            old(self)@.admin is Some ==> r == Err::<(), EnhancedError>(
                EnhancedError::AlreadyInitialized,
            ) && final(self)@ == old(self)@,
            old(self)@.admin is None && inv.caller != admin ==> r == Err::<(), EnhancedError>(
                EnhancedError::NotAuthorized,
            ) && final(self)@ == old(self)@,
            old(self)@.admin is None && inv.caller == admin && !enable_treasury ==> (r is Ok)
                && final(self)@ == (EnhancedContractView { admin: Some(admin), ..old(self)@ }),
            old(self)@.admin is None && inv.caller == admin && enable_treasury ==> (r is Ok)
                && final(self)@ == (EnhancedContractView {
                admin: Some(admin),
                yield_token: Some(yield_token_address),
                treasury_enabled: true,
                config: Some(
                    TreasuryConfig {
                        admin,
                        min_reserve_ratio: 2000,
                        max_investment_ratio: 8000,
                        auto_invest: false,
                        yield_strategy: YIELD_STRATEGY_STELLAR_USDC,
                        emergency_withdrawal_enabled: true,
                    },
                ),
                metrics: Some(
                    YieldMetrics {
                        total_invested: 0,
                        total_yield_earned: 0,
                        current_apy: 0,
                        last_yield_calculation: inv.timestamp,
                        investment_count: 0,
                    },
                ),
                reserve_balance: Some(0),
                ..old(self)@
            }),
    {
        if self.admin.is_some() {
            return Err(EnhancedError::AlreadyInitialized);
        }
        if !admin.same_as(&inv.caller) {
            return Err(EnhancedError::NotAuthorized);
        }
        self.admin = Some(admin);
        if enable_treasury {
            self.yield_token = Some(yield_token_address);
            self.treasury_enabled = true;
            self.config = Some(
                TreasuryConfig {
                    admin,
                    min_reserve_ratio: 2000,
                    max_investment_ratio: 8000,
                    auto_invest: false,
                    yield_strategy: YIELD_STRATEGY_STELLAR_USDC,
                    emergency_withdrawal_enabled: true,
                },
            );
            self.metrics = Some(
                YieldMetrics {
                    total_invested: 0,
                    total_yield_earned: 0,
                    current_apy: 0,
                    last_yield_calculation: inv.timestamp,
                    investment_count: 0,
                },
            );
            self.reserve_balance = Some(0);
        }
        Ok(())
    }

    /// Creates grant `grant_id` streaming `total_amount` to `recipient` at
    /// `flow_rate` per second from now, with the given status and yield
    /// options. Only the administrator may; the total must be positive, the
    /// rate not negative, the reserve share within 0..=10000 basis points, and
    /// the id unused. The status mask is taken as given.
    pub fn create_enhanced_grant(
        &mut self,
        inv: &Invocation,
        grant_id: u64,
        recipient: Address,
        total_amount: i128,
        flow_rate: i128,
        initial_status_mask: u32,
        yield_enabled: bool,
        auto_yield_invest: bool,
        min_reserve_percentage: i128,
    ) -> (r: Result<(), EnhancedError>)
        requires
            old(self).wf(),
        ensures
            final(self).wf(),
            r == (if old(self)@.admin_refusal(inv.caller) is Some {
                Err(old(self)@.admin_refusal(inv.caller)->Some_0)
            } else if total_amount <= 0 {
                Err(EnhancedError::InvalidAmount)
            } else if flow_rate < 0 {
                Err(EnhancedError::InvalidRate)
            } else if min_reserve_percentage < 0 || min_reserve_percentage > 10000 {
                Err(EnhancedError::InvalidAmount)
            } else if old(self)@.grants.contains_key(grant_id) {
                Err(EnhancedError::GrantAlreadyExists)
            } else {
                Ok::<(), EnhancedError>(())
            }),
            r is Err ==> final(self)@ == old(self)@,
            (r is Ok) ==> final(self)@ == (EnhancedContractView {
                grants: old(self)@.grants.insert(
                    grant_id,
                    EnhancedGrant {
                        base_grant: Grant {
                            recipient,
                            total_amount,
                            withdrawn: 0,
                            claimable: 0,
                            flow_rate,
                            last_update_ts: inv.timestamp,
                            rate_updated_at: inv.timestamp,
                            status_mask: initial_status_mask,
                        },
                        yield_enabled,
                        auto_yield_invest,
                        min_reserve_percentage,
                    },
                ),
                grant_ids: old(self)@.grant_ids.push(grant_id),
                ..old(self)@
            }),
    {
        self.require_admin(&inv.caller)?;
        if total_amount <= 0 {
            return Err(EnhancedError::InvalidAmount);
        }
        if flow_rate < 0 {
            return Err(EnhancedError::InvalidRate);
        }
        if min_reserve_percentage < 0 || min_reserve_percentage > 10000 {
            return Err(EnhancedError::InvalidAmount);
        }
        if self.grants.contains_key(&grant_id) {
            return Err(EnhancedError::GrantAlreadyExists);
        }
        let base_grant = Grant {
            recipient,
            total_amount,
            withdrawn: 0,
            claimable: 0,
            flow_rate,
            last_update_ts: inv.timestamp,
            rate_updated_at: inv.timestamp,
            status_mask: initial_status_mask,
        };
        let ghost old_ids = self.grant_ids@;
        self.grants.insert(
            grant_id,
            EnhancedGrant { base_grant, yield_enabled, auto_yield_invest, min_reserve_percentage },
        );
        self.grant_ids.push(grant_id);
        proof {
            assert(!old_ids.contains(grant_id));
            assert forall|id: u64| #[trigger] self@.grants.contains_key(id) implies self@.grant_ids.contains(id) by {
                if id == grant_id {
                    assert(self@.grant_ids[old_ids.len() as int] == grant_id);
                } else {
                    assert(old(self)@.grants.contains_key(id));
                    let k = choose|k: int| 0 <= k < old_ids.len() && old_ids[k] == id;
                    assert(self@.grant_ids[k] == id);
                }
            }
            assert forall|i: int| 0 <= i < self@.grant_ids.len() implies self@.grants.contains_key(#[trigger] self@.grant_ids[i]) by {
                if i < old_ids.len() {
                    assert(old_ids[i] == self@.grant_ids[i]);
                }
            }
            assert(self@.grant_ids.no_duplicates()) by {
                assert forall|a: int, b: int| 0 <= a < self@.grant_ids.len() && 0 <= b < self@.grant_ids.len() && a != b implies self@.grant_ids[a] != self@.grant_ids[b] by {
                    if a < old_ids.len() && b < old_ids.len() {
                        assert(old_ids[a] == self@.grant_ids[a]);
                        assert(old_ids[b] == self@.grant_ids[b]);
                    } else if a < old_ids.len() {
                        assert(old_ids[a] == self@.grant_ids[a]);
                        assert(old_ids.contains(old_ids[a]));
                    } else if b < old_ids.len() {
                        assert(old_ids[b] == self@.grant_ids[b]);
                        assert(old_ids.contains(old_ids[b]));
                    }
                }
            }
        }
        Ok(())
    }

    fn calculate_total_claimable(&self) -> (r: Result<i128, EnhancedError>)
        requires
            self.wf(),
        ensures
            fits_i128(self@.total_claimable()) ==> r == Ok::<i128, EnhancedError>(
                self@.total_claimable() as i128,
            ),
            !fits_i128(self@.total_claimable()) ==> r == Err::<i128, EnhancedError>(
                EnhancedError::MathOverflow,
            ),
    {
        let ghost ids = self.grant_ids@;
        let ghost grants = self.grants@;
        proof {
            assert forall|i: int| 0 <= i < ids.len() implies grants[#[trigger] ids[i]].base_grant.claimable >= 0 by {
                assert(grants.contains_key(ids[i]));
            }
        }
        let mut total: i128 = 0;
        let mut i: usize = 0;
        while i < self.grant_ids.len()
            invariant
                0 <= i <= ids.len(),
                ids == self.grant_ids@,
                grants == self.grants@,
                self.wf(),
                forall|k: int| 0 <= k < ids.len() ==> grants[#[trigger] ids[k]].base_grant.claimable >= 0,
                total == claimable_sum(ids.take(i as int), grants),
            decreases ids.len() - i,
        {
            assert(ids.take(i + 1).drop_last() =~= ids.take(i as int));
            let id = self.grant_ids[i];
            assert(grants.contains_key(ids[i as int]));
            let claimable = match self.grants.get(&id) {
                Some(g) => g.base_grant.claimable,
                None => 0,
            };
            total = match total.checked_add(claimable) {
                Some(v) => v,
                None => {
                    proof {
                        lemma_claimable_sum_prefix(ids, grants, i + 1);
                    }
                    return Err(EnhancedError::MathOverflow);
                },
            };
            i = i + 1;
        }
        assert(ids.take(i as int) =~= ids);
        Ok(total)
    }

    fn ensure_grantee_liquidity(&self, investment_amount: i128, contract_balance: i128) -> (r: Result<
        (),
        EnhancedError,
    >)
        requires
            self.wf(),
        ensures
            r == (if self.yield_token is None {
                Err(EnhancedError::YieldNotEnabled)
            } else if !fits_i128(self@.total_claimable()) || !fits_i128(
                self@.total_claimable() * 2000,
            ) {
                Err(EnhancedError::MathOverflow)
            } else if !fits_i128(contract_balance - investment_amount) || contract_balance
                - investment_amount < trunc_div(self@.total_claimable() * 2000, 10000) {
                Err(EnhancedError::InsufficientReserve)
            } else {
                Ok::<(), EnhancedError>(())
            }),
    {
        if self.yield_token.is_none() {
            return Err(EnhancedError::YieldNotEnabled);
        }
        let total_claimable = self.calculate_total_claimable()?;
        let product = match total_claimable.checked_mul(2000) {
            Some(v) => v,
            None => return Err(EnhancedError::MathOverflow),
        };
        let min_liquidity_needed = match product.checked_div(BASIS_POINTS) {
            Some(v) => v,
            None => return Err(EnhancedError::MathOverflow),
        };
        let remaining_balance = match contract_balance.checked_sub(investment_amount) {
            Some(v) => v,
            None => return Err(EnhancedError::InsufficientReserve),
        };
        if remaining_balance < min_liquidity_needed {
            return Err(EnhancedError::InsufficientReserve);
        }
        Ok(())
    }

    fn emergency_divest_for_withdrawal(&mut self, needed_amount: i128, now: u64) -> (r: Result<
        (),
        EnhancedError,
    >)
        requires
            needed_amount > 0,
            emergency_divest_outcome(old(self)@, needed_amount, now) is Some,
        ensures
            match emergency_divest_outcome(old(self)@, needed_amount, now)->Some_0 {
                Ok((p, reserve)) => r is Ok && final(self)@ == (EnhancedContractView {
                    position: p,
                    reserve_balance: Some(reserve),
                    ..old(self)@
                }),
                Err(e) => r == Err::<(), EnhancedError>(e) && final(self)@ == old(self)@,
            },
    {
        let stored = match self.position {
            Some(p) => p,
            None => return Err(EnhancedError::InvestmentInactive),
        };
        let position = if now > stored.last_yield_update {
            match update_yield_position(&stored, now) {
                Ok(p) => p,
                Err(_) => return Err(EnhancedError::MathOverflow),
            }
        } else {
            stored
        };
        let current_value = position.current_value;
        let divest_amount = if needed_amount > current_value {
            current_value
        } else {
            needed_amount
        };
        let new_position = if divest_amount >= current_value {
            None
        } else {
            let (investment_return, yield_return) = match split_divestment(&position, divest_amount) {
                Ok(v) => v,
                Err(_) => return Err(EnhancedError::MathOverflow),
            };
            let invested_amount = match position.invested_amount.checked_sub(investment_return) {
                Some(v) => v,
                None => return Err(EnhancedError::MathOverflow),
            };
            let accrued_yield = match position.accrued_yield.checked_sub(yield_return) {
                Some(v) => v,
                None => return Err(EnhancedError::MathOverflow),
            };
            Some(
                YieldPosition {
                    invested_amount,
                    accrued_yield,
                    current_value: current_value - divest_amount,
                    ..position
                },
            )
        };
        let current_reserve = match self.reserve_balance {
            Some(v) => v,
            None => 0,
        };
        let new_reserve = match current_reserve.checked_add(divest_amount) {
            Some(v) => v,
            None => return Err(EnhancedError::MathOverflow),
        };
        self.position = new_position;
        self.reserve_balance = Some(new_reserve);
        Ok(())
    }

    /// Whether `enhanced_withdraw` can work out its outcome within the
    /// machine's integers, as it needs to (see its `requires`): false only
    /// when the withdrawal would have to divest and the shortfall leaves
    /// `i128`, or the position was last updated after the invocation's time.
    pub fn enhanced_withdraw_computable(
        &self,
        inv: &Invocation,
        grant_id: u64,
        amount: i128,
        contract_balance: i128,
    ) -> (r: bool)
        requires
            self.wf(),
        ensures
            r == enhanced_withdraw_outcome(
                self@,
                inv.caller,
                inv.timestamp,
                grant_id,
                amount,
                contract_balance,
            ) is Some,
    {
        if amount <= 0 {
            return true;
        }
        let g = match self.grants.get(&grant_id) {
            Some(g) => *g,
            None => return true,
        };
        let mut base = g.base_grant;
        if !has_status(base.status_mask, STATUS_ACTIVE) {
            return true;
        }
        if !base.recipient.same_as(&inv.caller) {
            return true;
        }
        proof {
            lemma_settle_well_formed(base, inv.timestamp);
        }
        if settle_grant(&mut base, inv.timestamp).is_err() {
            return true;
        }
        if amount > base.total_amount - base.withdrawn {
            return true;
        }
        if !(self.treasury_enabled && g.yield_enabled && g.auto_yield_invest) {
            return true;
        }
        if self.yield_token.is_none() {
            return true;
        }
        let available = match contract_balance.checked_sub(base.claimable) {
            Some(v) => v,
            None => return true,
        };
        if available >= amount {
            return true;
        }
        if amount.checked_sub(available).is_none() {
            return false;
        }
        match self.position {
            None => true,
            Some(p) => inv.timestamp >= p.last_yield_update,
        }
    }

    /// Pays `amount`, never more than is left unpaid of the total, out of the
    /// active grant `grant_id` to its recipient, who must authorize the call,
    /// divesting first when the
    /// balance `contract_balance` would not cover it (see
    /// [`enhanced_withdraw_outcome`]). The transfer itself is the token's.
    pub fn enhanced_withdraw(
        &mut self,
        inv: &Invocation,
        grant_id: u64,
        amount: i128,
        contract_balance: i128,
    ) -> (r: Result<(), EnhancedError>)
        requires
            old(self).wf(),
            enhanced_withdraw_outcome(
                old(self)@,
                inv.caller,
                inv.timestamp,
                grant_id,
                amount,
                contract_balance,
            ) is Some,
        ensures
            final(self).wf(),
            match enhanced_withdraw_outcome(
                old(self)@,
                inv.caller,
                inv.timestamp,
                grant_id,
                amount,
                contract_balance,
            )->Some_0 {
                Ok(s) => r is Ok && final(self)@ == s,
                Err(e) => r == Err::<(), EnhancedError>(e) && final(self)@ == old(self)@,
            },
    {
        if amount <= 0 {
            return Err(EnhancedError::InvalidAmount);
        }
        let enhanced_grant = match self.grants.get(&grant_id) {
            Some(g) => *g,
            None => return Err(EnhancedError::GrantNotFound),
        };
        let mut base = enhanced_grant.base_grant;
        if !has_status(base.status_mask, STATUS_ACTIVE) {
            return Err(EnhancedError::InvalidState);
        }
        if !base.recipient.same_as(&inv.caller) {
            return Err(EnhancedError::NotAuthorized);
        }
        proof {
            lemma_settle_well_formed(base, inv.timestamp);
        }
        match settle_grant(&mut base, inv.timestamp) {
            Ok(()) => {},
            Err(e) => return Err(grant_error(e)),
        }
        if amount > base.total_amount - base.withdrawn {
            return Err(EnhancedError::InvalidAmount);
        }
        // Without a token nothing can be paid, whether or not a divestment
        // would come first.
        if self.yield_token.is_none() {
            return Err(EnhancedError::YieldNotEnabled);
        }
        let ghost before_divest = self@;
        if self.treasury_enabled && enhanced_grant.yield_enabled && enhanced_grant.auto_yield_invest {
            let available_liquidity = match contract_balance.checked_sub(base.claimable) {
                Some(v) => v,
                None => return Err(EnhancedError::InsufficientReserve),
            };
            if available_liquidity < amount {
                let needed = amount - available_liquidity;
                self.emergency_divest_for_withdrawal(needed, inv.timestamp)?;
            }
        }
        proof {
            assert(self@.grants == before_divest.grants);
            assert(self@.grant_ids == before_divest.grant_ids);
        }
        base.claimable = if amount <= base.claimable {
            base.claimable - amount
        } else {
            0
        };
        base.withdrawn = base.withdrawn + amount;
        let accounted = base.withdrawn + base.claimable;
        if accounted == base.total_amount {
            base.status_mask = set_status(base.status_mask, STATUS_COMPLETED);
            base.status_mask = clear_status(base.status_mask, STATUS_ACTIVE);
        }
        self.grants.insert(grant_id, EnhancedGrant { base_grant: base, ..enhanced_grant });
        proof {
            assert forall|i: int| 0 <= i < self@.grant_ids.len() implies self@.grants.contains_key(#[trigger] self@.grant_ids[i]) by {
                assert(old(self)@.grants.contains_key(old(self)@.grant_ids[i]));
            }
            assert forall|id: u64| #[trigger] self@.grants.contains_key(id) implies self@.grant_ids.contains(id) by {
                if id != grant_id {
                    assert(old(self)@.grants.contains_key(id));
                }
            }
        }
        Ok(())
    }


    /// Invests `amount` of the balance `contract_balance` in `strategy` or the
    /// configured strategy, keeping liquidity for the grantees (see
    /// [`enhanced_invest_outcome`]).
    pub fn invest_idle_funds(
        &mut self,
        inv: &Invocation,
        amount: i128,
        strategy: Option<u32>,
        contract_balance: i128,
    ) -> (r: Result<(), EnhancedError>)
        requires
            old(self).wf(),
            old(self).metrics matches Some(m) ==> m.investment_count < u32::MAX,
        ensures
            final(self).wf(),
            match enhanced_invest_outcome(
                old(self)@,
                inv.caller,
                inv.timestamp,
                amount,
                strategy,
                contract_balance,
            ) {
                Ok(s) => r is Ok && final(self)@ == s,
                Err(e) => r == Err::<(), EnhancedError>(e) && final(self)@ == old(self)@,
            },
    {
        self.require_admin(&inv.caller)?;
        self.invest(inv.timestamp, amount, strategy, contract_balance)
    }

    /// Invests `amount` out of `contract_balance` at time `now`, whoever asks
    /// (see [`enhanced_investment_outcome`]).
    fn invest(&mut self, now: u64, amount: i128, strategy: Option<u32>, contract_balance: i128) -> (r:
        Result<(), EnhancedError>)
        requires
            old(self).wf(),
            old(self).metrics matches Some(m) ==> m.investment_count < u32::MAX,
        ensures
            final(self).wf(),
            match enhanced_investment_outcome(old(self)@, now, amount, strategy, contract_balance) {
                Ok(s) => r is Ok && final(self)@ == s,
                Err(e) => r == Err::<(), EnhancedError>(e) && final(self)@ == old(self)@,
            },
    {
        self.require_treasury_enabled()?;
        if amount <= 0 {
            return Err(EnhancedError::InvalidAmount);
        }
        self.ensure_grantee_liquidity(amount, contract_balance)?;
        if self.position.is_some() {
            return Err(EnhancedError::InvestmentActive);
        }
        if amount > contract_balance {
            return Err(EnhancedError::InsufficientReserve);
        }
        let config = match self.config {
            Some(c) => c,
            None => return Err(EnhancedError::YieldNotEnabled),
        };
        let investment_strategy = match strategy {
            Some(x) => x,
            None => config.yield_strategy,
        };
        let apy = match get_strategy_apy(investment_strategy) {
            Ok(a) => a,
            Err(_) => return Err(EnhancedError::InvalidStrategy),
        };
        let current_reserve = match self.reserve_balance {
            Some(v) => v,
            None => 0,
        };
        let new_reserve = match current_reserve.checked_sub(amount) {
            Some(v) => v,
            None => return Err(EnhancedError::InsufficientReserve),
        };
        let metrics = match self.metrics {
            Some(m) => m,
            None => return Err(EnhancedError::YieldNotEnabled),
        };
        let total_invested = match metrics.total_invested.checked_add(amount) {
            Some(v) => v,
            None => return Err(EnhancedError::MathOverflow),
        };
        self.position = Some(
            YieldPosition {
                strategy: investment_strategy,
                invested_amount: amount,
                current_value: amount,
                accrued_yield: 0,
                invested_at: now,
                last_yield_update: now,
                apy,
            },
        );
        self.reserve_balance = Some(new_reserve);
        self.metrics = Some(
            YieldMetrics {
                total_invested,
                investment_count: metrics.investment_count + 1,
                current_apy: apy,
                last_yield_calculation: now,
                ..metrics
            },
        );
        Ok(())
    }

    /// Takes `amount`, or with `None` everything, out of the open position
    /// (see [`enhanced_divest_outcome`]).
    pub fn divest_funds(&mut self, inv: &Invocation, amount: Option<i128>) -> (r: Result<
        (),
        EnhancedError,
    >)
        requires
            old(self).wf(),
            old(self).position matches Some(p) ==> p.last_yield_update <= inv.timestamp,
        ensures
            final(self).wf(),
            match enhanced_divest_outcome(old(self)@, inv.caller, inv.timestamp, amount) {
                Ok(s) => r is Ok && final(self)@ == s,
                Err(e) => r == Err::<(), EnhancedError>(e) && final(self)@ == old(self)@,
            },
    {
        self.require_admin(&inv.caller)?;
        self.require_treasury_enabled()?;
        let stored = match self.position {
            Some(p) => p,
            None => return Err(EnhancedError::InvestmentInactive),
        };
        let now = inv.timestamp;
        let time_elapsed = now - stored.last_yield_update;
        let position = if time_elapsed > 0 {
            match update_yield_position(&stored, now) {
                Ok(p) => p,
                Err(_) => return Err(EnhancedError::MathOverflow),
            }
        } else {
            stored
        };
        let divest_amount = match amount {
            Some(amt) => {
                if amt <= 0 {
                    return Err(EnhancedError::InvalidAmount);
                }
                if amt > position.current_value {
                    return Err(EnhancedError::InsufficientInvestment);
                }
                amt
            },
            None => position.current_value,
        };
        let remaining_value = match position.current_value.checked_sub(divest_amount) {
            Some(v) => v,
            None => return Err(EnhancedError::MathOverflow),
        };
        let (investment_return, yield_return) = match split_divestment(&position, divest_amount) {
            Ok(split) => split,
            Err(_) => return Err(EnhancedError::MathOverflow),
        };
        let invested_amount = match position.invested_amount.checked_sub(investment_return) {
            Some(v) => v,
            None => return Err(EnhancedError::MathOverflow),
        };
        let accrued_yield = match position.accrued_yield.checked_sub(yield_return) {
            Some(v) => v,
            None => return Err(EnhancedError::MathOverflow),
        };
        let current_reserve = match self.reserve_balance {
            Some(v) => v,
            None => 0,
        };
        let new_reserve = match current_reserve.checked_add(divest_amount) {
            Some(v) => v,
            None => return Err(EnhancedError::MathOverflow),
        };
        let metrics = match self.metrics {
            Some(m) => m,
            None => return Err(EnhancedError::YieldNotEnabled),
        };
        let total_yield_earned = match metrics.total_yield_earned.checked_add(yield_return) {
            Some(v) => v,
            None => return Err(EnhancedError::MathOverflow),
        };
        self.position = if remaining_value == 0 {
            None
        } else {
            Some(
                YieldPosition {
                    invested_amount,
                    accrued_yield,
                    current_value: remaining_value,
                    ..position
                },
            )
        };
        self.reserve_balance = Some(new_reserve);
        self.metrics = Some(
            YieldMetrics {
                total_yield_earned,
                current_apy: if remaining_value == 0 {
                    0
                } else {
                    metrics.current_apy
                },
                last_yield_calculation: now,
                ..metrics
            },
        );
        Ok(())
    }

    /// Grant `grant_id` as it stands at the invocation's time.
    pub fn get_enhanced_grant(&self, inv: &Invocation, grant_id: u64) -> (r: Result<
        EnhancedGrant,
        EnhancedError,
    >)
        ensures
            !self@.grants.contains_key(grant_id) ==> r == Err::<EnhancedGrant, EnhancedError>(
                EnhancedError::GrantNotFound,
            ),
            self@.grants.contains_key(grant_id) ==> match settle_outcome(
                self@.grants[grant_id].base_grant,
                inv.timestamp,
            ) {
                Ok(b) => r == Ok::<EnhancedGrant, EnhancedError>(
                    EnhancedGrant { base_grant: b, ..self@.grants[grant_id] },
                ),
                Err(e) => r == Err::<EnhancedGrant, EnhancedError>(grant_error_spec(e)),
            },
    {
        let mut enhanced_grant = match self.grants.get(&grant_id) {
            Some(g) => *g,
            None => return Err(EnhancedError::GrantNotFound),
        };
        match settle_grant(&mut enhanced_grant.base_grant, inv.timestamp) {
            Ok(()) => Ok(enhanced_grant),
            Err(e) => Err(grant_error(e)),
        }
    }

    /// The open position brought up to the invocation's time.
    pub fn get_yield_position(&self, inv: &Invocation) -> (r: Result<YieldPosition, EnhancedError>)
        requires
            self.position matches Some(p) ==> p.last_yield_update <= inv.timestamp,
        ensures
            !self.treasury_enabled ==> r == Err::<YieldPosition, EnhancedError>(
                EnhancedError::YieldNotEnabled,
            ),
            self.treasury_enabled && self.position is None ==> r == Err::<
                YieldPosition,
                EnhancedError,
            >(EnhancedError::InvestmentInactive),
            self.treasury_enabled && self.position is Some ==> r == enhanced_position_at(
                self.position->Some_0,
                inv.timestamp,
            ),
    {
        self.require_treasury_enabled()?;
        let position = match self.position {
            Some(p) => p,
            None => return Err(EnhancedError::InvestmentInactive),
        };
        let time_elapsed = inv.timestamp - position.last_yield_update;
        if time_elapsed > 0 {
            match update_yield_position(&position, inv.timestamp) {
                Ok(p) => Ok(p),
                Err(_) => Err(EnhancedError::MathOverflow),
            }
        } else {
            Ok(position)
        }
    }

    /// The treasury's figures.
    pub fn get_treasury_metrics(&self) -> (r: Result<YieldMetrics, EnhancedError>)
        ensures
            r == (if !self.treasury_enabled || self.metrics is None {
                Err(EnhancedError::YieldNotEnabled)
            } else {
                Ok::<YieldMetrics, EnhancedError>(self.metrics->Some_0)
            }),
    {
        self.require_treasury_enabled()?;
        match self.metrics {
            Some(m) => Ok(m),
            None => Err(EnhancedError::YieldNotEnabled),
        }
    }

    /// Whether the treasury is enabled.
    pub fn is_treasury_enabled(&self) -> (r: bool)
        ensures
            r == self.treasury_enabled,
    {
        self.treasury_enabled
    }

    /// The balance `contract_balance` that the token reports, or nothing
    /// while the treasury is disabled.
    pub fn get_total_available_balance(&self, contract_balance: i128) -> (r: Result<
        i128,
        EnhancedError,
    >)
        ensures
            r == (if !self.treasury_enabled {
                Ok::<i128, EnhancedError>(0)
            } else if self.yield_token is None {
                Err(EnhancedError::YieldNotEnabled)
            } else {
                Ok(contract_balance)
            }),
    {
        if !self.treasury_enabled {
            return Ok(0);
        }
        if self.yield_token.is_none() {
            return Err(EnhancedError::YieldNotEnabled);
        }
        Ok(contract_balance)
    }

    /// Invests what the balance holds beyond the reserve, capped by the
    /// configured maximum share of the balance, in the configured strategy
    /// (see [`enhanced_auto_amount`]); nothing happens when that is not
    /// positive. Anyone may ask for it.
    pub fn auto_invest_idle_funds(&mut self, inv: &Invocation, contract_balance: i128) -> (r: Result<
        (),
        EnhancedError,
    >)
        requires
            old(self).wf(),
            old(self).metrics matches Some(m) ==> m.investment_count < u32::MAX,
        ensures
            final(self).wf(),
            match enhanced_auto_amount(old(self)@, contract_balance) {
                Err(e) => r == Err::<(), EnhancedError>(e) && final(self)@ == old(self)@,
                Ok(a) => if a <= 0 {
                    (r is Ok) && final(self)@ == old(self)@
                } else {
                    match enhanced_investment_outcome(
                        old(self)@,
                        inv.timestamp,
                        a as i128,
                        Some(old(self)@.config->Some_0.yield_strategy),
                        contract_balance,
                    ) {
                        Ok(s) => r is Ok && final(self)@ == s,
                        Err(e) => r == Err::<(), EnhancedError>(e) && final(self)@ == old(self)@,
                    }
                },
            },
    {
        self.require_treasury_enabled()?;
        let config = match self.config {
            Some(c) => c,
            None => return Err(EnhancedError::YieldNotEnabled),
        };
        if !config.auto_invest {
            return Err(EnhancedError::InvalidState);
        }
        if self.position.is_some() {
            return Err(EnhancedError::InvestmentActive);
        }
        if self.yield_token.is_none() {
            return Err(EnhancedError::YieldNotEnabled);
        }
        let reserve_balance = match self.reserve_balance {
            Some(v) => v,
            None => 0,
        };
        let idle_funds = match contract_balance.checked_sub(reserve_balance) {
            Some(v) => v,
            None => return Err(EnhancedError::InsufficientReserve),
        };
        let product = match contract_balance.checked_mul(config.max_investment_ratio) {
            Some(v) => v,
            None => return Err(EnhancedError::MathOverflow),
        };
        let max_investment = match product.checked_div(BASIS_POINTS) {
            Some(v) => v,
            None => return Err(EnhancedError::MathOverflow),
        };
        let investment_amount = if idle_funds > max_investment {
            max_investment
        } else {
            idle_funds
        };
        if investment_amount > 0 {
            self.invest(inv.timestamp, investment_amount, Some(config.yield_strategy), contract_balance)?;
        }
        Ok(())
    }

    /// Whether funds are invested; refused while the treasury is disabled.
    pub fn is_investment_active(&self) -> (r: Result<bool, EnhancedError>)
        ensures
            r == (if !self.treasury_enabled {
                Err(EnhancedError::YieldNotEnabled)
            } else {
                Ok::<bool, EnhancedError>(self.position is Some)
            }),
    {
        self.require_treasury_enabled()?;
        Ok(self.position.is_some())
    }

}

} // verus!
