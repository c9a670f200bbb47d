use grant_contracts::address::Address;
use grant_contracts::contract::Invocation;
use grant_contracts::yield_treasury::{
    calculate_yield_amount, get_strategy_apy, split_divestment, TreasuryConfig, YieldError,
    YieldPosition, YieldTreasuryContract, YIELD_STRATEGY_LIQUIDITY_POOL, YIELD_STRATEGY_STELLAR_AQUA,
    YIELD_STRATEGY_STELLAR_USDC,
};

const START: u64 = 1620000000;
const BALANCE: i128 = 1000000;

fn addr(n: u8) -> Address {
    Address::from_public_key([n; 32])
}

fn at(caller: Address, timestamp: u64) -> Invocation {
    Invocation { caller, timestamp }
}

fn config(admin: Address, auto_invest: bool, emergency_withdrawal_enabled: bool) -> TreasuryConfig {
    TreasuryConfig {
        admin,
        min_reserve_ratio: 2000,
        max_investment_ratio: 8000,
        auto_invest,
        yield_strategy: YIELD_STRATEGY_STELLAR_USDC,
        emergency_withdrawal_enabled,
    }
}

fn setup() -> (YieldTreasuryContract, Address) {
    let admin = addr(10);
    let mut t = YieldTreasuryContract::new();
    t.initialize(&at(admin, START), admin, addr(11), config(admin, false, true)).unwrap();
    (t, admin)
}

#[test]
fn test_yield_treasury_initialization() {
    let admin = addr(10);
    let token_address = addr(11);
    let mut t = YieldTreasuryContract::new();
    assert_eq!(t.initialize(&at(admin, START), admin, token_address, config(admin, false, true)), Ok(()));
    assert_eq!(
        t.initialize(&at(admin, START), admin, token_address, config(admin, false, true)),
        Err(YieldError::AlreadyInitialized)
    );
}

#[test]
fn test_invest_idle_funds() {
    let (mut t, admin) = setup();
    let inv = at(admin, START);
    assert_eq!(t.invest_idle_funds(&inv, 1000, Some(YIELD_STRATEGY_STELLAR_USDC), BALANCE), Ok(()));
    assert_eq!(
        t.invest_idle_funds(&inv, 500, Some(YIELD_STRATEGY_STELLAR_USDC), BALANCE),
        Err(YieldError::InvestmentActive)
    );
    assert_eq!(
        t.invest_idle_funds(&inv, 0, Some(YIELD_STRATEGY_STELLAR_USDC), BALANCE),
        Err(YieldError::InvalidAmount)
    );
    assert_eq!(t.invest_idle_funds(&inv, 1000, Some(999), BALANCE), Err(YieldError::InvalidStrategy));
}

#[test]
fn test_divest_funds() {
    let (mut t, admin) = setup();
    let inv = at(admin, START);
    t.invest_idle_funds(&inv, 1000, Some(YIELD_STRATEGY_STELLAR_USDC), BALANCE).unwrap();
    assert_eq!(t.divest_funds(&inv, Some(500)), Ok(()));
    assert_eq!(t.divest_funds(&inv, None), Ok(()));
    assert_eq!(t.divest_funds(&inv, Some(100)), Err(YieldError::InvestmentInactive));
}

#[test]
fn test_yield_position_tracking() {
    let (mut t, admin) = setup();
    let inv = at(admin, START);
    t.invest_idle_funds(&inv, 1000, Some(YIELD_STRATEGY_STELLAR_USDC), BALANCE).unwrap();
    let position = t.get_yield_position(&inv).unwrap();
    assert_eq!(position.strategy, YIELD_STRATEGY_STELLAR_USDC);
    assert_eq!(position.invested_amount, 1000);
    assert_eq!(position.current_value, 1000);
    assert_eq!(position.accrued_yield, 0);
    assert_eq!(position.apy, 500);
}

#[test]
fn test_yield_metrics() {
    let (mut t, admin) = setup();
    let inv = at(admin, START);
    let metrics = t.get_yield_metrics(&inv).unwrap();
    assert_eq!(metrics.total_invested, 0);
    assert_eq!(metrics.total_yield_earned, 0);
    assert_eq!(metrics.investment_count, 0);

    t.invest_idle_funds(&inv, 1000, Some(YIELD_STRATEGY_STELLAR_USDC), BALANCE).unwrap();
    let metrics = t.get_yield_metrics(&inv).unwrap();
    assert_eq!(metrics.total_invested, 1000);
    assert_eq!(metrics.investment_count, 1);
    assert_eq!(metrics.current_apy, 500);
}

#[test]
fn test_emergency_withdrawal() {
    let (mut t, admin) = setup();
    let recipient = addr(12);
    let inv = at(admin, START);
    assert_eq!(t.emergency_withdraw(&inv, 500, recipient, BALANCE), Ok(()));
    t.update_config(&inv, config(admin, false, false)).unwrap();
    assert_eq!(t.emergency_withdraw(&inv, 500, recipient, BALANCE), Err(YieldError::EmergencyMode));
}

#[test]
fn test_auto_invest() {
    let admin = addr(10);
    let mut t = YieldTreasuryContract::new();
    t.initialize(&at(admin, START), admin, addr(11), config(admin, true, true)).unwrap();
    let inv = at(admin, START);
    assert_eq!(t.auto_invest(&inv, BALANCE), Ok(()));
    t.update_config(&inv, config(admin, false, true)).unwrap();
    assert_eq!(t.auto_invest(&inv, BALANCE), Err(YieldError::InvalidState));
}

#[test]
fn test_strategy_apy() {
    assert_eq!(get_strategy_apy(YIELD_STRATEGY_STELLAR_USDC), Ok(500));
    assert_eq!(get_strategy_apy(YIELD_STRATEGY_STELLAR_AQUA), Ok(800));
    assert_eq!(get_strategy_apy(YIELD_STRATEGY_LIQUIDITY_POOL), Ok(1200));
    assert_eq!(get_strategy_apy(999), Err(YieldError::InvalidStrategy));
}

#[test]
fn test_yield_calculation() {
    let (mut t, admin) = setup();
    let inv = at(admin, START);
    t.invest_idle_funds(&inv, 10000, Some(YIELD_STRATEGY_STELLAR_USDC), BALANCE).unwrap();
    let position = t.get_yield_position(&inv).unwrap();
    assert_eq!(position.invested_amount, 10000);
    assert_eq!(position.accrued_yield, 0);
}

#[test]
fn test_error_conditions() {
    let admin = addr(10);
    let mut t = YieldTreasuryContract::new();
    let inv = at(admin, START);
    assert_eq!(
        t.invest_idle_funds(&inv, 1000, Some(YIELD_STRATEGY_STELLAR_USDC), BALANCE),
        Err(YieldError::NotInitialized)
    );
    assert_eq!(t.divest_funds(&inv, Some(100)), Err(YieldError::NotInitialized));
    assert_eq!(t.get_yield_position(&inv), Err(YieldError::NotInitialized));

    t.initialize(&inv, admin, addr(11), config(admin, false, true)).unwrap();
    assert_eq!(t.invest_idle_funds(&inv, 1000, Some(YIELD_STRATEGY_STELLAR_USDC), BALANCE), Ok(()));
}

#[test]
fn yield_accrues_by_the_formula() {
    let position = YieldPosition {
        strategy: YIELD_STRATEGY_STELLAR_USDC,
        invested_amount: 1000000,
        current_value: 1000000,
        accrued_yield: 0,
        invested_at: START,
        last_yield_update: START,
        apy: 500,
    };
    // A full year at 5% on 1,000,000.
    assert_eq!(calculate_yield_amount(&position, START + 31536000), Ok(50000));
    // Half a day: 1,000,000 * 500 * 43,200 / 10,000 / 31,536,000, rounded down.
    assert_eq!(calculate_yield_amount(&position, START + 43200), Ok(68));
    assert_eq!(calculate_yield_amount(&position, START), Ok(0));
    assert_eq!(calculate_yield_amount(&position, START - 5), Ok(0));
    let huge = YieldPosition { invested_amount: i128::MAX, ..position };
    assert_eq!(calculate_yield_amount(&huge, START + 1), Err(YieldError::MathOverflow));
}

#[test]
fn yield_position_grows_with_time() {
    let (mut t, admin) = setup();
    t.invest_idle_funds(&at(admin, START), 1000000, None, 10000000).unwrap();
    let position = t.get_yield_position(&at(admin, START + 31536000)).unwrap();
    assert_eq!(position.accrued_yield, 50000);
    assert_eq!(position.current_value, 1050000);
    assert_eq!(position.last_yield_update, START + 31536000);
}

#[test]
fn divest_splits_principal_and_yield() {
    let position = YieldPosition {
        strategy: YIELD_STRATEGY_STELLAR_USDC,
        invested_amount: 1000,
        current_value: 1250,
        accrued_yield: 250,
        invested_at: START,
        last_yield_update: START,
        apy: 500,
    };
    // The principal is 8,000 basis points of the value.
    assert_eq!(split_divestment(&position, 500), Ok((400, 100)));
    assert_eq!(split_divestment(&position, 1250), Ok((1000, 250)));
    let empty = YieldPosition { current_value: 0, ..position };
    assert_eq!(split_divestment(&empty, 30), Ok((30, 0)));
}

#[test]
fn divest_all_returns_everything_to_reserve() {
    let (mut t, admin) = setup();
    let inv = at(admin, START);
    t.invest_idle_funds(&inv, 300000, None, BALANCE).unwrap();
    assert_eq!(t.get_reserve_balance(), Ok(700000));
    t.divest_funds(&inv, None).unwrap();
    assert_eq!(t.get_reserve_balance(), Ok(BALANCE));
    assert_eq!(t.is_investment_active(), Ok(false));
    assert_eq!(t.get_yield_metrics(&inv).unwrap().current_apy, 0);
}

#[test]
fn investment_keeps_minimum_reserve() {
    let (mut t, admin) = setup();
    let inv = at(admin, START);
    // 20% of 1,000,000 must stay: 800,001 is too much.
    assert_eq!(t.invest_idle_funds(&inv, 800001, None, BALANCE), Err(YieldError::InsufficientReserve));
    assert_eq!(t.invest_idle_funds(&inv, 800000, None, BALANCE), Ok(()));
    assert_eq!(t.is_investment_active(), Ok(true));
    assert_eq!(t.divest_funds(&inv, Some(800001)), Err(YieldError::InsufficientInvestment));
    assert_eq!(t.divest_funds(&inv, Some(0)), Err(YieldError::InvalidAmount));
}

#[test]
fn treasury_access_control() {
    let (mut t, admin) = setup();
    let stranger = addr(13);
    assert_eq!(
        t.invest_idle_funds(&at(stranger, START), 10, None, BALANCE),
        Err(YieldError::NotAuthorized)
    );
    assert_eq!(t.update_config(&at(stranger, START), config(admin, true, true)), Err(YieldError::NotAuthorized));
    assert_eq!(
        t.emergency_withdraw(&at(admin, START), BALANCE + 1, stranger, BALANCE),
        Err(YieldError::InsufficientInvestment)
    );
    assert_eq!(t.emergency_withdraw(&at(admin, START), 0, stranger, BALANCE), Err(YieldError::InvalidAmount));
    assert_eq!(t.get_total_balance(BALANCE), Ok(BALANCE));
    assert_eq!(YieldTreasuryContract::new().get_total_balance(BALANCE), Err(YieldError::NotInitialized));
    assert_eq!(t.divest_funds(&at(admin, START), None), Err(YieldError::InvestmentInactive));
}

#[test]
fn auto_invest_takes_idle_funds_up_to_the_cap() {
    let admin = addr(10);
    let mut t = YieldTreasuryContract::new();
    t.initialize(&at(admin, START), admin, addr(11), config(admin, true, true)).unwrap();
    t.auto_invest(&at(admin, START), BALANCE).unwrap();
    let position = t.get_yield_position(&at(admin, START)).unwrap();
    assert_eq!(position.invested_amount, 800000);
    assert_eq!(t.get_reserve_balance(), Ok(200000));
    assert_eq!(t.auto_invest(&at(admin, START), BALANCE), Err(YieldError::InvestmentActive));
}

#[test]
fn reserve_is_checked_before_the_strategy() {
    let (mut t, admin) = setup();
    let inv = at(admin, START);
    // Investing the whole balance breaks the reserve, whatever the strategy.
    assert_eq!(t.invest_idle_funds(&inv, 1000, Some(999), 1000), Err(YieldError::InsufficientReserve));
    assert_eq!(t.invest_idle_funds(&inv, 100, Some(999), 1000), Err(YieldError::InvalidStrategy));
    t.invest_idle_funds(&inv, 100, None, 1000).unwrap();
    // With an investment open, a bad strategy is still named first.
    assert_eq!(t.invest_idle_funds(&inv, 100, Some(999), 1000), Err(YieldError::InvalidStrategy));
    assert_eq!(t.invest_idle_funds(&inv, 100, None, 1000), Err(YieldError::InvestmentActive));
}

#[test]
fn anyone_may_trigger_auto_invest() {
    let admin = addr(10);
    let mut t = YieldTreasuryContract::new();
    t.initialize(&at(admin, START), admin, addr(11), config(admin, true, true)).unwrap();
    t.auto_invest(&at(addr(14), START), BALANCE).unwrap();
    assert_eq!(t.get_yield_position(&at(addr(14), START)).unwrap().invested_amount, 800000);
}
