use vstd::prelude::*;
use crate::address::Address;
use crate::contract::Invocation;
use crate::grant::fits_i128;

verus! {

/// No investment.
pub const YIELD_STATUS_INACTIVE: u32 = 0x0;
/// An investment is being made.
pub const YIELD_STATUS_INVESTING: u32 = 0x1;
/// Funds are invested.
pub const YIELD_STATUS_INVESTED: u32 = 0x2;
/// Funds are being divested.
pub const YIELD_STATUS_DIVESTING: u32 = 0x4;
/// The treasury is in emergency mode.
pub const YIELD_STATUS_EMERGENCY: u32 = 0x8;

/// Staking of the Stellar AQUA token.
pub const YIELD_STRATEGY_STELLAR_AQUA: u32 = 1;
/// Lending of Stellar USDC.
pub const YIELD_STRATEGY_STELLAR_USDC: u32 = 2;
/// Liquidity provision to an automated market maker.
pub const YIELD_STRATEGY_LIQUIDITY_POOL: u32 = 3;

/// Basis points in one whole.
pub const BASIS_POINTS: i128 = 10000;
/// Seconds in a year of 365 days.
pub const SECONDS_PER_YEAR: i128 = 31536000;

/// Funds placed in a yield strategy. `apy` is in basis points.
#[derive(Clone, Copy, Debug, PartialEq, Eq)]
pub struct YieldPosition {
    pub strategy: u32,
    pub invested_amount: i128,
    pub current_value: i128,
    pub accrued_yield: i128,
    pub invested_at: u64,
    pub last_yield_update: u64,
    pub apy: i128,
}

/// How the treasury invests: the ratios are in basis points.
#[derive(Clone, Copy, Debug, PartialEq, Eq)]
pub struct TreasuryConfig {
    pub admin: Address,
    pub min_reserve_ratio: i128,
    pub max_investment_ratio: i128,
    pub auto_invest: bool,
    pub yield_strategy: u32,
    pub emergency_withdrawal_enabled: bool,
}

/// Running figures of the treasury.
#[derive(Clone, Copy, Debug, PartialEq, Eq)]
pub struct YieldMetrics {
    pub total_invested: i128,
    pub total_yield_earned: i128,
    pub current_apy: i128,
    pub last_yield_calculation: u64,
    pub investment_count: u32,
}

/// The keys under which the treasury keeps its state.
#[derive(Clone, Copy, Debug, PartialEq, Eq, Structural)]
pub enum DataKey {
    Admin,
    Config,
    YieldPosition,
    Metrics,
    ReserveBalance,
    YieldToken,
}

/// Why a treasury operation was refused.
#[derive(Clone, Copy, Debug, PartialEq, Eq, Structural)]
pub enum YieldError {
    NotInitialized,
    AlreadyInitialized,
    NotAuthorized,
    InsufficientReserve,
    InsufficientInvestment,
    InvalidAmount,
    InvalidStrategy,
    InvestmentActive,
    InvestmentInactive,
    MathOverflow,
    YieldCalculationFailed,
    EmergencyMode,
    TokenError,
    InvalidState,
}

/// `x / d` rounded toward zero, as integer division does, for positive `d`.
pub open spec fn trunc_div(x: int, d: int) -> int {
    if x >= 0 {
        x / d
    } else {
        -((-x) / d)
    }
}

/// The yearly yield of a strategy in basis points, if it is one.
pub open spec fn strategy_apy(strategy: u32) -> Option<i128> {
    if strategy == YIELD_STRATEGY_STELLAR_AQUA {
        Some(800)
    } else if strategy == YIELD_STRATEGY_STELLAR_USDC {
        Some(500)
    } else if strategy == YIELD_STRATEGY_LIQUIDITY_POOL {
        Some(1200)
    } else {
        None
    }
}

/// The yield of position `p` from its last update to `now`:
/// `invested_amount * apy * elapsed / 10000 / SECONDS_PER_YEAR`, each
/// division rounding toward zero; nothing when `now` is not after the last
/// update. Fails when a product leaves `i128`.
pub open spec fn yield_outcome(p: YieldPosition, now: u64) -> Result<i128, YieldError> {
    if now <= p.last_yield_update {
        Ok(0)
    } else {
        let a = p.invested_amount * p.apy;
        let b = a * (now - p.last_yield_update);
        if !fits_i128(a) || !fits_i128(b) {
            Err(YieldError::MathOverflow)
        } else {
            Ok(trunc_div(trunc_div(b, 10000), SECONDS_PER_YEAR as int) as i128)
        }
    }
}

/// Computes the yield of `position` up to `now` (see [`yield_outcome`]).
pub fn calculate_yield_amount(position: &YieldPosition, now: u64) -> (r: Result<i128, YieldError>)
    ensures
        r == yield_outcome(*position, now),
{
    if now <= position.last_yield_update {
        return Ok(0);
    }
    let time_elapsed = now - position.last_yield_update;
    let time_ratio = time_elapsed as i128;
    let a = match position.invested_amount.checked_mul(position.apy) {
        Some(v) => v,
        None => return Err(YieldError::MathOverflow),
    };
    let b = match a.checked_mul(time_ratio) {
        Some(v) => v,
        None => return Err(YieldError::MathOverflow),
    };
    let c = match b.checked_div(BASIS_POINTS) {
        Some(v) => v,
        None => return Err(YieldError::MathOverflow),
    };
    match c.checked_div(SECONDS_PER_YEAR) {
        Some(v) => Ok(v),
        None => Err(YieldError::MathOverflow),
    }
}

/// For non-negative amounts, the yield is the exact formula
/// `invested_amount * apy * elapsed / (10000 * SECONDS_PER_YEAR)` rounded
/// down, and it is nothing when no time has passed.
pub proof fn lemma_yield_formula(p: YieldPosition, now: u64)
    requires
        p.invested_amount >= 0,
        p.apy >= 0,
        yield_outcome(p, now) is Ok,
    ensures
        now <= p.last_yield_update ==> yield_outcome(p, now)->Ok_0 == 0,
        now > p.last_yield_update ==> yield_outcome(p, now)->Ok_0 == p.invested_amount * p.apy * (
        now - p.last_yield_update) / (10000 * SECONDS_PER_YEAR as int),
{
    if now > p.last_yield_update {
        let e: int = now - p.last_yield_update;
        let b = p.invested_amount * p.apy * e;
        assert(b >= 0) by (nonlinear_arith)
            requires
                p.invested_amount >= 0,
                p.apy >= 0,
                e > 0,
                b == p.invested_amount * p.apy * e,
        ;
        vstd::arithmetic::div_mod::lemma_div_denominator(b, 10000, SECONDS_PER_YEAR as int);
        assert(b / 10000 >= 0) by (nonlinear_arith)
            requires
                b >= 0,
        ;
    }
}

/// What position `p` is worth at `now`: its principal and accrued yield,
/// plus the yield earned since its last update,
/// `invested_amount * apy * elapsed / (10000 * SECONDS_PER_YEAR)` rounded down.
pub open spec fn value_at(p: YieldPosition, now: u64) -> int {
    p.invested_amount + p.accrued_yield + if now > p.last_yield_update {
        p.invested_amount * p.apy * (now - p.last_yield_update) / (10000 * SECONDS_PER_YEAR as int)
    } else {
        0
    }
}

/// The yearly yield of `strategy` in basis points.
pub fn get_strategy_apy(strategy: u32) -> (r: Result<i128, YieldError>)
    ensures
        match strategy_apy(strategy) {
            Some(a) => r == Ok::<i128, YieldError>(a),
            None => r == Err::<i128, YieldError>(YieldError::InvalidStrategy),
        },
{
    if strategy == YIELD_STRATEGY_STELLAR_AQUA {
        Ok(800)
    } else if strategy == YIELD_STRATEGY_STELLAR_USDC {
        Ok(500)
    } else if strategy == YIELD_STRATEGY_LIQUIDITY_POOL {
        Ok(1200)
    } else {
        Err(YieldError::InvalidStrategy)
    }
}

/// Position `p` with its yield brought up to `now`: the yield is added to the
/// accrued yield, the current value becomes principal plus accrued yield, and
/// the update time becomes `now`.
pub open spec fn updated_position(p: YieldPosition, now: u64) -> Result<YieldPosition, YieldError> {
    match yield_outcome(p, now) {
        Err(e) => Err(e),
        Ok(y) => if !fits_i128(p.accrued_yield + y) || !fits_i128(
            p.invested_amount + p.accrued_yield + y,
        ) {
            Err(YieldError::MathOverflow)
        } else {
            Ok(
                YieldPosition {
                    accrued_yield: (p.accrued_yield + y) as i128,
                    current_value: (p.invested_amount + p.accrued_yield + y) as i128,
                    last_yield_update: now,
                    ..p
                },
            )
        },
    }
}

/// Brings the yield of `position` up to `now` (see [`updated_position`]).
pub fn update_yield_position(position: &YieldPosition, now: u64) -> (r: Result<
    YieldPosition,
    YieldError,
>)
    ensures
        r == updated_position(*position, now),
{
    let new_yield = calculate_yield_amount(position, now)?;
    let accrued_yield = match position.accrued_yield.checked_add(new_yield) {
        Some(v) => v,
        None => return Err(YieldError::MathOverflow),
    };
    let current_value = match position.invested_amount.checked_add(accrued_yield) {
        Some(v) => v,
        None => return Err(YieldError::MathOverflow),
    };
    Ok(YieldPosition { accrued_yield, current_value, last_yield_update: now, ..*position })
}

/// Why investing `amount` out of a balance of `balance` would leave less in
/// reserve than `min_reserve_ratio` basis points of the balance, if it would.
pub open spec fn reserve_refusal(min_reserve_ratio: i128, balance: i128, amount: i128) -> Option<
    YieldError,
> {
    if !fits_i128(balance * min_reserve_ratio) {
        Some(YieldError::MathOverflow)
    } else if !fits_i128(balance - amount) {
        Some(YieldError::InsufficientReserve)
    } else if balance - amount < trunc_div(balance * min_reserve_ratio, 10000) {
        Some(YieldError::InsufficientReserve)
    } else {
        None
    }
}

/// Checks that investing `amount` out of `total_balance` keeps the minimum
/// reserve (see [`reserve_refusal`]).
pub fn ensure_reserve_ratio(config: &TreasuryConfig, total_balance: i128, investment_amount: i128) -> (r:
    Result<(), YieldError>)
    ensures
        match reserve_refusal(config.min_reserve_ratio, total_balance, investment_amount) {
            Some(e) => r == Err::<(), YieldError>(e),
            None => r is Ok,
        },
{
    let product = match total_balance.checked_mul(config.min_reserve_ratio) {
        Some(v) => v,
        None => return Err(YieldError::MathOverflow),
    };
    let reserve_needed = match product.checked_div(BASIS_POINTS) {
        Some(v) => v,
        None => return Err(YieldError::MathOverflow),
    };
    let remaining_reserve = match total_balance.checked_sub(investment_amount) {
        Some(v) => v,
        None => return Err(YieldError::InsufficientReserve),
    };
    if remaining_reserve < reserve_needed {
        return Err(YieldError::InsufficientReserve);
    }
    Ok(())
}


/// The state of the yield treasury: its administrator, the token it holds,
/// its configuration, its open position, its figures and the balance it
/// keeps in reserve. Each is absent until the treasury is initialized, and
/// the position is absent while nothing is invested.
#[derive(Clone, Copy, Debug)]
pub struct YieldTreasuryContract {
    pub admin: Option<Address>,
    pub yield_token: Option<Address>,
    pub config: Option<TreasuryConfig>,
    pub position: Option<YieldPosition>,
    pub metrics: Option<YieldMetrics>,
    pub reserve_balance: Option<i128>,
}

/// Why `caller` may not act as administrator of treasury `s`, if it may not.
pub open spec fn treasury_admin_refusal(s: YieldTreasuryContract, caller: Address) -> Option<
    YieldError,
> {
    match s.admin {
        None => Some(YieldError::NotInitialized),
        Some(a) => if a == caller {
            None
        } else {
            Some(YieldError::NotAuthorized)
        },
    }
}

/// The treasury after `invest_idle_funds`, or why it refuses: only the
/// administrator may invest (see [`investment_outcome`]).
pub open spec fn invest_outcome(
    s: YieldTreasuryContract,
    caller: Address,
    now: u64,
    amount: i128,
    strategy: Option<u32>,
    balance: i128,
) -> Result<YieldTreasuryContract, YieldError> {
    if treasury_admin_refusal(s, caller) is Some {
        Err(treasury_admin_refusal(s, caller)->Some_0)
    } else {
        investment_outcome(s, now, amount, strategy, balance)
    }
}

/// The treasury after investing `amount` out of a balance of `balance`, or
/// why it refuses, whoever asks.
///
/// The reserve is checked first, then the strategy (the one given or else the
/// configured one), then that nothing is invested yet. The whole `amount`
/// becomes the principal of a new position at the strategy's yield, the
/// reserve becomes what is left of the balance, and the figures count one
/// more investment.
pub open spec fn investment_outcome(
    s: YieldTreasuryContract,
    now: u64,
    amount: i128,
    strategy: Option<u32>,
    balance: i128,
) -> Result<YieldTreasuryContract, YieldError> {
    if amount <= 0 {
        Err(YieldError::InvalidAmount)
    } else if s.config is None || s.yield_token is None {
        Err(YieldError::NotInitialized)
    } else {
        let cfg = s.config->Some_0;
        let strat = match strategy {
            Some(x) => x,
            None => cfg.yield_strategy,
        };
        if reserve_refusal(cfg.min_reserve_ratio, balance, amount) is Some {
            Err(reserve_refusal(cfg.min_reserve_ratio, balance, amount)->Some_0)
        } else if strategy_apy(strat) is None {
            Err(YieldError::InvalidStrategy)
        } else if s.position is Some {
            Err(YieldError::InvestmentActive)
        } else if s.metrics is None {
            Err(YieldError::NotInitialized)
        } else {
            let m = s.metrics->Some_0;
            let apy = strategy_apy(strat)->Some_0;
            if !fits_i128(m.total_invested + amount) {
                Err(YieldError::MathOverflow)
            } else {
                Ok(
                    YieldTreasuryContract {
                        position: Some(
                            YieldPosition {
                                strategy: strat,
                                invested_amount: amount,
                                current_value: amount,
                                accrued_yield: 0,
                                invested_at: now,
                                last_yield_update: now,
                                apy,
                            },
                        ),
                        reserve_balance: Some((balance - amount) as i128),
                        metrics: Some(
                            YieldMetrics {
                                total_invested: (m.total_invested + amount) as i128,
                                investment_count: (m.investment_count + 1) as u32,
                                current_apy: apy,
                                last_yield_calculation: now,
                                ..m
                            },
                        ),
                        ..s
                    },
                )
            }
        }
    }
}

/// How a divestment of `amount` from position `q` splits into principal
/// returned and yield returned: the principal's share is `amount` times the
/// principal's share of the current value in basis points (all of it when the
/// value is not positive), rounded toward zero; the yield is the rest.
pub open spec fn divestment_split(q: YieldPosition, amount: i128) -> Result<(i128, i128), YieldError> {
    let ratio: int = if q.current_value > 0 {
        trunc_div(q.invested_amount * 10000, q.current_value as int)
    } else {
        10000
    };
    if q.current_value > 0 && !fits_i128(q.invested_amount * 10000) {
        Err(YieldError::MathOverflow)
    } else if !fits_i128(amount * ratio) {
        Err(YieldError::MathOverflow)
    } else {
        let investment_return = trunc_div(amount * ratio, 10000);
        if !fits_i128(amount - investment_return) {
            Err(YieldError::MathOverflow)
        } else {
            Ok((investment_return as i128, (amount - investment_return) as i128))
        }
    }
}

/// Splits a divestment of `amount` from `q` (see [`divestment_split`]).
pub fn split_divestment(q: &YieldPosition, amount: i128) -> (r: Result<(i128, i128), YieldError>)
    ensures
        r == divestment_split(*q, amount),
        r is Ok ==> r->Ok_0.0 + r->Ok_0.1 == amount,
{
    let investment_ratio: i128 = if q.current_value > 0 {
        let product = match q.invested_amount.checked_mul(BASIS_POINTS) {
            Some(v) => v,
            None => return Err(YieldError::MathOverflow),
        };
        match product.checked_div(q.current_value) {
            Some(v) => v,
            None => return Err(YieldError::MathOverflow),
        }
    } else {
        BASIS_POINTS
    };
    let product = match amount.checked_mul(investment_ratio) {
        Some(v) => v,
        None => return Err(YieldError::MathOverflow),
    };
    let investment_return = match product.checked_div(BASIS_POINTS) {
        Some(v) => v,
        None => return Err(YieldError::MathOverflow),
    };
    let yield_return = match amount.checked_sub(investment_return) {
        Some(v) => v,
        None => return Err(YieldError::MathOverflow),
    };
    Ok((investment_return, yield_return))
}

/// The treasury after `divest_funds`, or why it refuses.
///
/// The position's yield is brought up to `now`; `amount` (or, when absent,
/// the whole current value) is taken out of it, split between principal and
/// yield (see [`divestment_split`]); the position closes when nothing is left;
/// the reserve grows by the amount taken out and the figures by the yield.
pub open spec fn divest_outcome(
    s: YieldTreasuryContract,
    caller: Address,
    now: u64,
    amount: Option<i128>,
) -> Result<YieldTreasuryContract, YieldError> {
    if treasury_admin_refusal(s, caller) is Some {
        Err(treasury_admin_refusal(s, caller)->Some_0)
    } else if s.position is None {
        Err(YieldError::InvestmentInactive)
    } else if s.yield_token is None {
        Err(YieldError::NotInitialized)
    } else {
        match updated_position(s.position->Some_0, now) {
            Err(e) => Err(e),
            Ok(q) => {
                let request: Result<i128, YieldError> = match amount {
                    Some(a) => if a <= 0 {
                        Err(YieldError::InvalidAmount)
                    } else if a > q.current_value {
                        Err(YieldError::InsufficientInvestment)
                    } else {
                        Ok(a)
                    },
                    None => Ok(q.current_value),
                };
                match request {
                    Err(e) => Err(e),
                    Ok(d) => if !fits_i128(q.current_value - d) {
                        Err(YieldError::MathOverflow)
                    } else {
                        match divestment_split(q, d) {
                            Err(e) => Err(e),
                            Ok((ir, yr)) => if !fits_i128(q.invested_amount - ir) || !fits_i128(
                                q.accrued_yield - yr,
                            ) {
                                Err(YieldError::MathOverflow)
                            } else if s.reserve_balance is None {
                                Err(YieldError::NotInitialized)
                            } else if !fits_i128(s.reserve_balance->Some_0 + d) {
                                Err(YieldError::MathOverflow)
                            } else if s.metrics is None {
                                Err(YieldError::NotInitialized)
                            } else if !fits_i128(s.metrics->Some_0.total_yield_earned + yr) {
                                Err(YieldError::MathOverflow)
                            } else {
                                let remaining = q.current_value - d;
                                let m = s.metrics->Some_0;
                                Ok(
                                    YieldTreasuryContract {
                                        position: if remaining == 0 {
                                            None
                                        } else {
                                            Some(
                                                YieldPosition {
                                                    invested_amount: (q.invested_amount - ir) as i128,
                                                    accrued_yield: (q.accrued_yield - yr) as i128,
                                                    current_value: remaining as i128,
                                                    ..q
                                                },
                                            )
                                        },
                                        reserve_balance: Some(
                                            (s.reserve_balance->Some_0 + d) as i128,
                                        ),
                                        metrics: Some(
                                            YieldMetrics {
                                                total_yield_earned: (m.total_yield_earned
                                                    + yr) as i128,
                                                current_apy: if remaining == 0 {
                                                    0
                                                } else {
                                                    m.current_apy
                                                },
                                                last_yield_calculation: now,
                                                ..m
                                            },
                                        ),
                                        ..s
                                    },
                                )
                            },
                        }
                    },
                }
            },
        }
    }
}

/// What `auto_invest` would invest out of a balance of `balance`, or why it
/// refuses: what the balance holds beyond the reserve, but no more than
/// `max_investment_ratio` basis points of the balance.
pub open spec fn auto_invest_amount(s: YieldTreasuryContract, balance: i128) -> Result<int, YieldError> {
    if s.config is None {
        Err(YieldError::NotInitialized)
    } else if !s.config->Some_0.auto_invest {
        Err(YieldError::InvalidState)
    } else if s.position is Some {
        Err(YieldError::InvestmentActive)
    } else if s.yield_token is None || s.reserve_balance is None {
        Err(YieldError::NotInitialized)
    } else if !fits_i128(balance - s.reserve_balance->Some_0) {
        Err(YieldError::InsufficientReserve)
    } else if !fits_i128(balance * s.config->Some_0.max_investment_ratio) {
        Err(YieldError::MathOverflow)
    } else {
        let idle = balance - s.reserve_balance->Some_0;
        let max = trunc_div(balance * s.config->Some_0.max_investment_ratio, 10000);
        Ok(
            if idle > max {
                max
            } else {
                idle
            },
        )
    }
}

/// Whether the position, if any, is worth exactly its principal plus its
/// accrued yield.
pub open spec fn position_consistent(p: Option<YieldPosition>) -> bool {
    p matches Some(q) ==> q.current_value == q.invested_amount + q.accrued_yield
}

/// Whether the position, if any, is worth exactly its principal plus its
/// accrued yield (see [`position_consistent`]).
pub fn position_is_consistent(p: &Option<YieldPosition>) -> (r: bool)
    ensures
        r == position_consistent(*p),
{
    match p {
        Some(q) => match q.invested_amount.checked_add(q.accrued_yield) {
            Some(v) => q.current_value == v,
            None => false,
        },
        None => true,
    }
}

impl YieldTreasuryContract {
    /// What every reachable treasury keeps: an open position is worth its
    /// principal plus its accrued yield.
    pub open spec fn wf(self) -> bool {
        position_consistent(self.position)
    }

    /// A treasury that has not been initialized.
    pub fn new() -> (c: YieldTreasuryContract)
        ensures
            c.wf(),
            c.admin is None && c.yield_token is None && c.config is None && c.position is None
                && c.metrics is None && c.reserve_balance is None,
    {
        YieldTreasuryContract {
            admin: None,
            yield_token: None,
            config: None,
            position: None,
            metrics: None,
            reserve_balance: None,
        }
    }

    fn require_admin(&self, caller: &Address) -> (r: Result<(), YieldError>)
        ensures
            match treasury_admin_refusal(*self, *caller) {
                Some(e) => r == Err::<(), YieldError>(e),
                None => r is Ok,
            },
    {
        match &self.admin {
            None => Err(YieldError::NotInitialized),
            Some(a) => if a.same_as(caller) {
                Ok(())
            } else {
                Err(YieldError::NotAuthorized)
            },
        }
    }

    /// Sets up the treasury for `admin`, who must authorize the call, holding
    /// the token at `yield_token_address`, configured as `initial_config`
    /// except that the configured administrator is `admin`; figures start at
    /// zero as of now and the reserve is empty. Refused once initialized.
    pub fn initialize(
        &mut self,
        inv: &Invocation,
        admin: Address,
        yield_token_address: Address,
        initial_config: TreasuryConfig,
    ) -> (r: Result<(), YieldError>)
        requires
            old(self).wf(),
        ensures
            final(self).wf(),
            old(self).admin is Some ==> r == Err::<(), YieldError>(YieldError::AlreadyInitialized)
                && *final(self) == *old(self),
            old(self).admin is None && inv.caller != admin ==> r == Err::<(), YieldError>(
                YieldError::NotAuthorized,
            ) && *final(self) == *old(self),
            old(self).admin is None && inv.caller == admin ==> (r is Ok) && *final(self) == (
            YieldTreasuryContract {
                admin: Some(admin),
                yield_token: Some(yield_token_address),
                config: Some(TreasuryConfig { admin, ..initial_config }),
                metrics: Some(
                    YieldMetrics {
                        total_invested: 0,
                        total_yield_earned: 0,
                        current_apy: 0,
                        last_yield_calculation: inv.timestamp,
                        investment_count: 0,
                    },
                ),
                reserve_balance: Some(0),
                ..*old(self)
            }),
    {
        if self.admin.is_some() {
            return Err(YieldError::AlreadyInitialized);
        }
        if !admin.same_as(&inv.caller) {
            return Err(YieldError::NotAuthorized);
        }
        self.admin = Some(admin);
        self.yield_token = Some(yield_token_address);
        self.config = Some(TreasuryConfig { admin, ..initial_config });
        self.metrics = Some(
            YieldMetrics {
                total_invested: 0,
                total_yield_earned: 0,
                current_apy: 0,
                last_yield_calculation: inv.timestamp,
                investment_count: 0,
            },
        );
        self.reserve_balance = Some(0);
        Ok(())
    }

    /// Invests `amount` of the treasury's balance, `contract_balance` as the
    /// token reports it, in `strategy` or the configured strategy (see
    /// [`invest_outcome`]). After a successful call, what the balance keeps is
    /// at least the configured minimum reserve of it.
    pub fn invest_idle_funds(
        &mut self,
        inv: &Invocation,
        amount: i128,
        strategy: Option<u32>,
        contract_balance: i128,
    ) -> (r: Result<(), YieldError>)
        requires
            old(self).wf(),
            old(self).metrics matches Some(m) ==> m.investment_count < u32::MAX,
        ensures
            final(self).wf(),
            match invest_outcome(*old(self), inv.caller, inv.timestamp, amount, strategy, contract_balance) {
                Ok(s) => r is Ok && *final(self) == s,
                Err(e) => r == Err::<(), YieldError>(e) && *final(self) == *old(self),
            },
            r is Ok ==> contract_balance - amount >= trunc_div(
                contract_balance * old(self).config->Some_0.min_reserve_ratio,
                10000,
            ),
    {
        self.require_admin(&inv.caller)?;
        self.invest(inv.timestamp, amount, strategy, contract_balance)
    }

    /// Invests `amount` out of `contract_balance` at time `now`, whoever asks
    /// (see [`investment_outcome`]).
    fn invest(&mut self, now: u64, amount: i128, strategy: Option<u32>, contract_balance: i128) -> (r:
        Result<(), YieldError>)
        requires
            old(self).wf(),
            old(self).metrics matches Some(m) ==> m.investment_count < u32::MAX,
        ensures
            final(self).wf(),
            match investment_outcome(*old(self), now, amount, strategy, contract_balance) {
                Ok(s) => r is Ok && *final(self) == s,
                Err(e) => r == Err::<(), YieldError>(e) && *final(self) == *old(self),
            },
    {
        if amount <= 0 {
            return Err(YieldError::InvalidAmount);
        }
        let config = match self.config {
            Some(c) => c,
            None => return Err(YieldError::NotInitialized),
        };
        if self.yield_token.is_none() {
            return Err(YieldError::NotInitialized);
        }
        let investment_strategy = match strategy {
            Some(x) => x,
            None => config.yield_strategy,
        };
        ensure_reserve_ratio(&config, contract_balance, amount)?;
        let apy = get_strategy_apy(investment_strategy)?;
        if self.position.is_some() {
            return Err(YieldError::InvestmentActive);
        }
        let metrics = match self.metrics {
            Some(m) => m,
            None => return Err(YieldError::NotInitialized),
        };
        let total_invested = match metrics.total_invested.checked_add(amount) {
            Some(v) => v,
            None => return Err(YieldError::MathOverflow),
        };
        
        self.position = Some(
            YieldPosition {
                strategy: investment_strategy,
                invested_amount: amount,
                current_value: amount,
                accrued_yield: 0,
                invested_at: now,
                last_yield_update: now,
                apy,
            },
        );
        self.reserve_balance = Some(contract_balance - amount);
        self.metrics = Some(
            YieldMetrics {
                total_invested,
                investment_count: metrics.investment_count + 1,
                current_apy: apy,
                last_yield_calculation: now,
                ..metrics
            },
        );
        Ok(())
    }

    /// Takes `amount`, or with `None` everything, out of the open position
    /// (see [`divest_outcome`]). What is taken out splits exactly into
    /// principal and yield, and goes to the reserve.
    pub fn divest_funds(&mut self, inv: &Invocation, amount: Option<i128>) -> (r: Result<
        (),
        YieldError,
    >)
        requires
            old(self).wf(),
        ensures
            final(self).wf(),
            match divest_outcome(*old(self), inv.caller, inv.timestamp, amount) {
                Ok(s) => r is Ok && *final(self) == s,
                Err(e) => r == Err::<(), YieldError>(e) && *final(self) == *old(self),
            },
    {
        self.require_admin(&inv.caller)?;
        let position = match self.position {
            Some(p) => p,
            None => return Err(YieldError::InvestmentInactive),
        };
        if self.yield_token.is_none() {
            return Err(YieldError::NotInitialized);
        }
        let position = update_yield_position(&position, inv.timestamp)?;
        let divest_amount = match amount {
            Some(amt) => {
                if amt <= 0 {
                    return Err(YieldError::InvalidAmount);
                }
                if amt > position.current_value {
                    return Err(YieldError::InsufficientInvestment);
                }
                amt
            },
            None => position.current_value,
        };
        let remaining_value = match position.current_value.checked_sub(divest_amount) {
            Some(v) => v,
            None => return Err(YieldError::MathOverflow),
        };
        let (investment_return, yield_return) = split_divestment(&position, divest_amount)?;
        let invested_amount = match position.invested_amount.checked_sub(investment_return) {
            Some(v) => v,
            None => return Err(YieldError::MathOverflow),
        };
        let accrued_yield = match position.accrued_yield.checked_sub(yield_return) {
            Some(v) => v,
            None => return Err(YieldError::MathOverflow),
        };
        let current_reserve = match self.reserve_balance {
            Some(v) => v,
            None => return Err(YieldError::NotInitialized),
        };
        let new_reserve = match current_reserve.checked_add(divest_amount) {
            Some(v) => v,
            None => return Err(YieldError::MathOverflow),
        };
        let metrics = match self.metrics {
            Some(m) => m,
            None => return Err(YieldError::NotInitialized),
        };
        let total_yield_earned = match metrics.total_yield_earned.checked_add(yield_return) {
            Some(v) => v,
            None => return Err(YieldError::MathOverflow),
        };
        self.position = if remaining_value == 0 {
            None
        } else {
            Some(
                YieldPosition {
                    invested_amount,
                    accrued_yield,
                    current_value: remaining_value,
                    ..position
                },
            )
        };
        self.reserve_balance = Some(new_reserve);
        self.metrics = Some(
            YieldMetrics {
                total_yield_earned,
                current_apy: if remaining_value == 0 {
                    0
                } else {
                    metrics.current_apy
                },
                last_yield_calculation: inv.timestamp,
                ..metrics
            },
        );
        Ok(())
    }

    /// The open position with its yield brought up to the invocation's time.
    pub fn get_yield_position(&self, inv: &Invocation) -> (r: Result<YieldPosition, YieldError>)
        ensures
            self.admin is None ==> r == Err::<YieldPosition, YieldError>(YieldError::NotInitialized),
            self.admin is Some && self.position is None ==> r == Err::<YieldPosition, YieldError>(
                YieldError::InvestmentInactive,
            ),
            self.admin is Some && self.position is Some ==> r == updated_position(
                self.position->Some_0,
                inv.timestamp,
            ),
    {
        if self.admin.is_none() {
            return Err(YieldError::NotInitialized);
        }
        match self.position {
            Some(p) => update_yield_position(&p, inv.timestamp),
            None => Err(YieldError::InvestmentInactive),
        }
    }

    /// The treasury's figures, with the yield of the open position (if any)
    /// as the current yield; refused when that position cannot be brought up
    /// to the invocation's time.
    pub fn get_yield_metrics(&self, inv: &Invocation) -> (r: Result<YieldMetrics, YieldError>)
        ensures
            self.metrics is None ==> r == Err::<YieldMetrics, YieldError>(YieldError::NotInitialized),
            self.metrics is Some && self.position is None ==> r == Ok::<YieldMetrics, YieldError>(
                self.metrics->Some_0,
            ),
            self.metrics is Some && self.position is Some ==> match updated_position(
                self.position->Some_0,
                inv.timestamp,
            ) {
                Err(e) => r == Err::<YieldMetrics, YieldError>(e),
                Ok(p) => r == Ok::<YieldMetrics, YieldError>(
                    YieldMetrics { current_apy: p.apy, ..self.metrics->Some_0 },
                ),
            },
    {
        let metrics = match self.metrics {
            Some(m) => m,
            None => return Err(YieldError::NotInitialized),
        };
        match self.position {
            Some(p) => {
                let position = update_yield_position(&p, inv.timestamp)?;
                Ok(YieldMetrics { current_apy: position.apy, ..metrics })
            },
            None => Ok(metrics),
        }
    }

    /// The balance kept in reserve.
    pub fn get_reserve_balance(&self) -> (r: Result<i128, YieldError>)
        ensures
            match self.reserve_balance {
                Some(b) => r == Ok::<i128, YieldError>(b),
                None => r == Err::<i128, YieldError>(YieldError::NotInitialized),
            },
    {
        match self.reserve_balance {
            Some(b) => Ok(b),
            None => Err(YieldError::NotInitialized),
        }
    }

    /// The treasury's whole balance, `contract_balance` as its token reports
    /// it; refused before the token is known.
    pub fn get_total_balance(&self, contract_balance: i128) -> (r: Result<i128, YieldError>)
        ensures
            match self.yield_token {
                Some(_) => r == Ok::<i128, YieldError>(contract_balance),
                None => r == Err::<i128, YieldError>(YieldError::NotInitialized),
            },
    {
        match self.yield_token {
            Some(_) => Ok(contract_balance),
            None => Err(YieldError::NotInitialized),
        }
    }

    /// Replaces the configuration; only the administrator may.
    pub fn update_config(&mut self, inv: &Invocation, new_config: TreasuryConfig) -> (r: Result<
        (),
        YieldError,
    >)
        requires
            old(self).wf(),
        ensures
            final(self).wf(),
            match treasury_admin_refusal(*old(self), inv.caller) {
                Some(e) => r == Err::<(), YieldError>(e) && *final(self) == *old(self),
                None => (r is Ok) && *final(self) == (YieldTreasuryContract {
                    config: Some(new_config),
                    ..*old(self)
                }),
            },
    {
        self.require_admin(&inv.caller)?;
        self.config = Some(new_config);
        Ok(())
    }

    /// Checks an emergency withdrawal of `amount` to `recipient` out of a
    /// balance of `contract_balance`: only the administrator may, only when
    /// the configuration allows it, and only within the balance. The state is
    /// not changed; the transfer itself is the token's.
    pub fn emergency_withdraw(
        &self,
        inv: &Invocation,
        amount: i128,
        recipient: Address,
        contract_balance: i128,
    ) -> (r: Result<(), YieldError>)
        ensures
            r == (if treasury_admin_refusal(*self, inv.caller) is Some {
                Err(treasury_admin_refusal(*self, inv.caller)->Some_0)
            } else if self.config is None {
                Err(YieldError::NotInitialized)
            } else if !self.config->Some_0.emergency_withdrawal_enabled {
                Err(YieldError::EmergencyMode)
            } else if amount <= 0 {
                Err(YieldError::InvalidAmount)
            } else if self.yield_token is None {
                Err(YieldError::NotInitialized)
            } else if amount > contract_balance {
                Err(YieldError::InsufficientInvestment)
            } else {
                Ok::<(), YieldError>(())
            }),
    {
        self.require_admin(&inv.caller)?;
        let config = match self.config {
            Some(c) => c,
            None => return Err(YieldError::NotInitialized),
        };
        if !config.emergency_withdrawal_enabled {
            return Err(YieldError::EmergencyMode);
        }
        if amount <= 0 {
            return Err(YieldError::InvalidAmount);
        }
        if self.yield_token.is_none() {
            return Err(YieldError::NotInitialized);
        }
        if amount > contract_balance {
            return Err(YieldError::InsufficientInvestment);
        }
        Ok(())
    }

    /// Invests what the balance holds beyond the reserve, capped by the
    /// configured maximum share of the balance, in the configured strategy
    /// (see [`auto_invest_amount`]); nothing happens when that is not
    /// positive. Anyone may ask for it.
    pub fn auto_invest(&mut self, inv: &Invocation, contract_balance: i128) -> (r: Result<
        (),
        YieldError,
    >)
        requires
            old(self).wf(),
            old(self).metrics matches Some(m) ==> m.investment_count < u32::MAX,
        ensures
            final(self).wf(),
            match auto_invest_amount(*old(self), contract_balance) {
                Err(e) => r == Err::<(), YieldError>(e) && *final(self) == *old(self),
                Ok(a) => if a <= 0 {
                    (r is Ok) && *final(self) == *old(self)
                } else {
                    match investment_outcome(
                        *old(self),
                        inv.timestamp,
                        a as i128,
                        Some(old(self).config->Some_0.yield_strategy),
                        contract_balance,
                    ) {
                        Ok(s) => r is Ok && *final(self) == s,
                        Err(e) => r == Err::<(), YieldError>(e) && *final(self) == *old(self),
                    }
                },
            },
    {
        let config = match self.config {
            Some(c) => c,
            None => return Err(YieldError::NotInitialized),
        };
        if !config.auto_invest {
            return Err(YieldError::InvalidState);
        }
        if self.position.is_some() {
            return Err(YieldError::InvestmentActive);
        }
        if self.yield_token.is_none() {
            return Err(YieldError::NotInitialized);
        }
        let reserve_balance = match self.reserve_balance {
            Some(v) => v,
            None => return Err(YieldError::NotInitialized),
        };
        let idle_funds = match contract_balance.checked_sub(reserve_balance) {
            Some(v) => v,
            None => return Err(YieldError::InsufficientReserve),
        };
        let product = match contract_balance.checked_mul(config.max_investment_ratio) {
            Some(v) => v,
            None => return Err(YieldError::MathOverflow),
        };
        let max_investment = match product.checked_div(BASIS_POINTS) {
            Some(v) => v,
            None => return Err(YieldError::MathOverflow),
        };
        let investment_amount = if idle_funds > max_investment {
            max_investment
        } else {
            idle_funds
        };
        if investment_amount > 0 {
            self.invest(inv.timestamp, investment_amount, Some(config.yield_strategy), contract_balance)?;
        }
        Ok(())
    }

    /// Whether funds are invested.
    pub fn is_investment_active(&self) -> (r: Result<bool, YieldError>)
        ensures
            r == Ok::<bool, YieldError>(self.position is Some),
    {
        Ok(self.position.is_some())
    }
}

} // verus!
