use grant_contracts::address::Address;
use grant_contracts::contract::Invocation;
use grant_contracts::error::Error;
use grant_contracts::status::{STATUS_ACTIVE, STATUS_COMPLETED};
use grant_contracts::yield_enhanced::{grant_error, EnhancedError, YieldEnhancedGrantContract};
use grant_contracts::yield_treasury::{YIELD_STRATEGY_LIQUIDITY_POOL, YIELD_STRATEGY_STELLAR_USDC};

const START: u64 = 1620000000;

fn addr(n: u8) -> Address {
    Address::from_public_key([n; 32])
}

fn at(caller: Address, timestamp: u64) -> Invocation {
    Invocation { caller, timestamp }
}

fn setup(auto_yield_invest: bool) -> (YieldEnhancedGrantContract, Address, Address) {
    let admin = addr(20);
    let recipient = addr(21);
    let mut c = YieldEnhancedGrantContract::new();
    c.initialize(&at(admin, START), admin, addr(22), true).unwrap();
    c.create_enhanced_grant(&at(admin, START), 1, recipient, 10000, 100, STATUS_ACTIVE, true, auto_yield_invest, 2000)
        .unwrap();
    (c, admin, recipient)
}

#[test]
fn test_enhanced_grant_with_yield() {
    let admin = addr(20);
    let recipient = addr(21);
    let token_address = addr(22);
    let mut c = YieldEnhancedGrantContract::new();
    assert_eq!(c.initialize(&at(admin, START), admin, token_address, true), Ok(()));
    assert_eq!(
        c.create_enhanced_grant(&at(admin, START), 1, recipient, 10000, 100, 1, true, true, 2000),
        Ok(())
    );
    let enhanced_grant = c.get_enhanced_grant(&at(admin, START), 1).unwrap();
    assert!(enhanced_grant.yield_enabled);
    assert!(enhanced_grant.auto_yield_invest);
    assert_eq!(enhanced_grant.min_reserve_percentage, 2000);
}

#[test]
fn test_invest_with_liquidity_protection() {
    let (mut c, admin, _) = setup(true);
    assert_eq!(
        c.invest_idle_funds(&at(admin, START), 1000, Some(YIELD_STRATEGY_STELLAR_USDC), 10000),
        Ok(())
    );
}

#[test]
fn test_enhanced_withdrawal_with_yield() {
    let admin = addr(20);
    let recipient = addr(21);
    let token_address = addr(22);
    let mut c = YieldEnhancedGrantContract::new();
    c.initialize(&at(admin, START), admin, token_address, true).unwrap();
    c.create_enhanced_grant(&at(admin, START), 1, recipient, 10000, 100, 1, true, false, 2000).unwrap();
    assert_eq!(c.enhanced_withdraw(&at(recipient, START), 1, 500, 10000), Ok(()));
}

#[test]
fn enhanced_withdraw_after_accrual() {
    let (mut c, _, recipient) = setup(false);
    // Ten seconds at 100 per second.
    assert_eq!(c.enhanced_withdraw(&at(recipient, START + 10), 1, 500, 10000), Ok(()));
    let g = c.get_enhanced_grant(&at(recipient, START + 10), 1).unwrap();
    assert_eq!(g.base_grant.withdrawn, 500);
    assert_eq!(g.base_grant.claimable, 500);
    // Beyond the claimable amount the withdrawal draws ahead, up to what is left unpaid.
    assert_eq!(c.enhanced_withdraw(&at(recipient, START + 10), 1, 9501, 10000), Err(EnhancedError::InvalidAmount));
    assert_eq!(c.enhanced_withdraw(&at(recipient, START + 10), 1, 501, 10000), Ok(()));
    let g = c.get_enhanced_grant(&at(recipient, START + 10), 1).unwrap();
    assert_eq!(g.base_grant.withdrawn, 1001);
    assert_eq!(g.base_grant.claimable, 0);
    assert_eq!(c.enhanced_withdraw(&at(addr(1), START + 10), 1, 1, 10000), Err(EnhancedError::NotAuthorized));
    assert_eq!(c.enhanced_withdraw(&at(recipient, START + 10), 2, 1, 10000), Err(EnhancedError::GrantNotFound));
}

#[test]
fn emergency_divestment_accrues_yield_first() {
    let (mut c, admin, recipient) = setup(true);
    // 1,000 at 12% a year.
    c.invest_idle_funds(&at(admin, START), 1000, Some(YIELD_STRATEGY_LIQUIDITY_POOL), 10900).unwrap();
    let year = START + 31536000;
    // The grant's whole 10,000 is claimable; a balance of 10,900 leaves 900
    // beyond it, so withdrawing 1,000 needs 100 out of the investment.
    c.enhanced_withdraw(&at(recipient, year), 1, 1000, 10900).unwrap();
    let p = c.get_yield_position(&at(admin, year)).unwrap();
    // A year's yield of 120 is counted first; 100 of the 1,120 is taken out,
    // 89 of it principal and 11 of it yield.
    assert_eq!(p.current_value, 1020);
    assert_eq!(p.invested_amount, 911);
    assert_eq!(p.accrued_yield, 109);
    assert_eq!(p.last_yield_update, year);
}

#[test]
fn enhanced_withdraw_divests_the_shortfall() {
    let (mut c, admin, recipient) = setup(true);
    c.invest_idle_funds(&at(admin, START), 8000, None, 10000).unwrap();
    assert_eq!(c.is_investment_active(), Ok(true));
    // After 100 seconds the whole 10,000 is claimable, and a balance of 2,000
    // net of it falls short by 18,000: the whole investment is taken out.
    c.enhanced_withdraw(&at(recipient, START + 100), 1, 10000, 2000).unwrap();
    assert_eq!(c.is_investment_active(), Ok(false));
    let g = c.get_enhanced_grant(&at(recipient, START + 100), 1).unwrap();
    assert_eq!(g.base_grant.withdrawn, 10000);
    assert!(grant_contracts::status::has_status(g.base_grant.status_mask, STATUS_COMPLETED));
}

#[test]
fn enhanced_investment_keeps_liquidity_for_grantees() {
    let (mut c, admin, recipient) = setup(false);
    let later = START + 50;
    // 5,000 accrued; after withdrawing 1,000 the grant holds 4,000 claimable,
    // a fifth of which, 800, must stay in the balance.
    c.enhanced_withdraw(&at(recipient, later), 1, 1000, 10000).unwrap();
    assert_eq!(c.get_enhanced_grant(&at(admin, later), 1).unwrap().base_grant.claimable, 4000);
    assert_eq!(c.invest_idle_funds(&at(admin, later), 9201, None, 10000), Err(EnhancedError::InsufficientReserve));
    assert_eq!(c.invest_idle_funds(&at(admin, later), 0, None, 10000), Err(EnhancedError::InvalidAmount));
    assert_eq!(c.invest_idle_funds(&at(admin, later), 10, Some(42), 10000), Err(EnhancedError::InvalidStrategy));
    assert_eq!(c.invest_idle_funds(&at(addr(1), later), 10, None, 10000), Err(EnhancedError::NotAuthorized));
    assert_eq!(c.invest_idle_funds(&at(admin, later), 9200, None, 10000), Ok(()));
    assert_eq!(c.invest_idle_funds(&at(admin, later), 10, None, 10000), Err(EnhancedError::InvestmentActive));
}

#[test]
fn enhanced_divest_and_position() {
    let (mut c, admin, _) = setup(true);
    c.invest_idle_funds(&at(admin, START), 5000, None, 10000).unwrap();
    let p = c.get_yield_position(&at(admin, START)).unwrap();
    assert_eq!(p.invested_amount, 5000);
    assert_eq!(p.apy, 500);
    c.divest_funds(&at(admin, START), Some(2000)).unwrap();
    let p = c.get_yield_position(&at(admin, START)).unwrap();
    assert_eq!(p.current_value, 3000);
    c.divest_funds(&at(admin, START), None).unwrap();
    assert_eq!(c.get_yield_position(&at(admin, START)), Err(EnhancedError::InvestmentInactive));
    assert_eq!(c.divest_funds(&at(admin, START), None), Err(EnhancedError::InvestmentInactive));
    let m = c.get_treasury_metrics().unwrap();
    assert_eq!(m.total_invested, 5000);
    assert_eq!(m.investment_count, 1);
}

#[test]
fn enhanced_without_treasury() {
    let admin = addr(20);
    let mut c = YieldEnhancedGrantContract::new();
    c.initialize(&at(admin, START), admin, addr(22), false).unwrap();
    assert!(!c.is_treasury_enabled());
    assert_eq!(c.get_total_available_balance(500), Ok(0));
    assert_eq!(c.invest_idle_funds(&at(admin, START), 10, None, 100), Err(EnhancedError::YieldNotEnabled));
    assert_eq!(c.get_treasury_metrics(), Err(EnhancedError::YieldNotEnabled));
    assert_eq!(c.initialize(&at(admin, START), admin, addr(22), true), Err(EnhancedError::AlreadyInitialized));
}

#[test]
fn enhanced_create_errors() {
    let admin = addr(20);
    let mut c = YieldEnhancedGrantContract::new();
    let inv = at(admin, START);
    assert_eq!(
        c.create_enhanced_grant(&inv, 1, addr(1), 10, 1, STATUS_ACTIVE, true, true, 0),
        Err(EnhancedError::NotInitialized)
    );
    c.initialize(&inv, admin, addr(22), true).unwrap();
    assert!(c.is_treasury_enabled());
    assert_eq!(c.get_total_available_balance(500), Ok(500));
    assert_eq!(
        c.create_enhanced_grant(&inv, 1, addr(1), 0, 1, STATUS_ACTIVE, true, true, 0),
        Err(EnhancedError::InvalidAmount)
    );
    assert_eq!(
        c.create_enhanced_grant(&inv, 1, addr(1), 10, -1, STATUS_ACTIVE, true, true, 0),
        Err(EnhancedError::InvalidRate)
    );
    assert_eq!(
        c.create_enhanced_grant(&inv, 1, addr(1), 10, 1, STATUS_ACTIVE, true, true, 10001),
        Err(EnhancedError::InvalidAmount)
    );
    c.create_enhanced_grant(&inv, 1, addr(1), 10, 1, STATUS_ACTIVE, true, true, 10000).unwrap();
    assert_eq!(
        c.create_enhanced_grant(&inv, 1, addr(1), 10, 1, STATUS_ACTIVE, true, true, 0),
        Err(EnhancedError::GrantAlreadyExists)
    );
    assert_eq!(c.get_enhanced_grant(&inv, 2).err(), Some(EnhancedError::GrantNotFound));
}

#[test]
fn grant_errors_map_one_to_one() {
    assert_eq!(grant_error(Error::NotInitialized), EnhancedError::NotInitialized);
    assert_eq!(grant_error(Error::GrantNotFound), EnhancedError::GrantNotFound);
    assert_eq!(grant_error(Error::InvalidState), EnhancedError::InvalidState);
    assert_eq!(grant_error(Error::MathOverflow), EnhancedError::MathOverflow);
}

#[test]
fn anyone_may_trigger_enhanced_auto_invest() {
    let (mut c, admin, _) = setup(true);
    let cfg = grant_contracts::yield_treasury::TreasuryConfig {
        admin,
        min_reserve_ratio: 2000,
        max_investment_ratio: 8000,
        auto_invest: true,
        yield_strategy: YIELD_STRATEGY_STELLAR_USDC,
        emergency_withdrawal_enabled: true,
    };
    c.config = Some(cfg);
    c.auto_invest_idle_funds(&at(addr(1), START), 10000).unwrap();
    assert_eq!(c.get_yield_position(&at(addr(1), START)).unwrap().invested_amount, 8000);
}
