use grant_contracts::address::Address;
use grant_contracts::benchmarks::GasBenchmark;
use grant_contracts::contract::{DataKey, GrantContract, Invocation};
use grant_contracts::grant::{grant_is_well_formed, Grant};
use grant_contracts::multi_token::{create_token_balance, create_token_withdrawal};
use grant_contracts::yield_treasury::{position_is_consistent, YieldPosition};
use grant_contracts::error::{ContractError, Error, SelfTerminateError};
use grant_contracts::status::{
    clear_status, has_status, set_status, toggle_status, validate_status_transition, STATUS_ACTIVE,
    STATUS_CANCELLED, STATUS_COMPLETED, STATUS_PAUSED, STATUS_REVOCABLE,
};

const START: u64 = 1620000000;

fn addr(n: u8) -> Address {
    Address::from_public_key([n; 32])
}

fn at(caller: Address, timestamp: u64) -> Invocation {
    Invocation { caller, timestamp }
}

#[test]
fn settling_in_steps_matches_settling_once() {
    let admin = addr(0);
    let recipient = addr(1);
    let mut stepped = GrantContract::new();
    stepped.initialize(&at(admin, START), admin).unwrap();
    stepped.create_grant(&at(admin, START), 1, recipient, 100000, 33, STATUS_ACTIVE).unwrap();
    let mut once = GrantContract::new();
    once.initialize(&at(admin, START), admin).unwrap();
    once.create_grant(&at(admin, START), 1, recipient, 100000, 33, STATUS_ACTIVE).unwrap();

    // Setting the same rate stores the grant as settled at each step.
    for t in [START + 7, START + 100, START + 1234, START + 2000] {
        stepped.update_rate(&at(admin, t), 1, 33).unwrap();
    }
    assert_eq!(stepped.claimable(&at(admin, START + 3000), 1), Ok(99000));
    assert_eq!(once.claimable(&at(admin, START + 3000), 1), Ok(99000));
    let a = stepped.get_grant(&at(admin, START + 5000), 1).unwrap();
    let b = once.get_grant(&at(admin, START + 5000), 1).unwrap();
    assert_eq!(a.claimable, b.claimable);
    assert_eq!(a.claimable, 100000);
    assert!(has_status(a.status_mask, STATUS_COMPLETED));
    assert!(has_status(b.status_mask, STATUS_COMPLETED));
}

#[test]
fn cancelled_grant_refuses_everything() {
    let admin = addr(0);
    let recipient = addr(1);
    let mut c = GrantContract::new();
    c.initialize(&at(admin, START), admin).unwrap();
    c.create_grant(&at(admin, START), 1, recipient, 100000, 10, STATUS_ACTIVE).unwrap();
    c.cancel_grant(&at(admin, START + 10), 1).unwrap();
    let g = c.get_grant(&at(admin, START + 10), 1).unwrap();
    assert_eq!(g.claimable, 100);
    assert_eq!(g.flow_rate, 0);

    let t = START + 500;
    assert_eq!(c.cancel_grant(&at(admin, t), 1), Err(Error::InvalidStatusTransition));
    assert_eq!(c.pause_grant(&at(admin, t), 1), Err(Error::InvalidState));
    assert_eq!(c.resume_grant(&at(admin, t), 1), Err(Error::InvalidState));
    assert_eq!(c.set_grant_flags(&at(admin, t), 1, STATUS_ACTIVE, 0), Err(Error::InvalidStatusTransition));
    assert_eq!(c.update_rate(&at(admin, t), 1, 5), Err(Error::InvalidState));
    assert_eq!(c.withdraw(&at(recipient, t), 1, 50), Err(Error::InvalidState));
    assert_eq!(
        c.self_terminate(&at(recipient, t), 1),
        Err(ContractError::SelfTerminate(SelfTerminateError::CannotTerminateCancelled))
    );
    assert_eq!(c.claimable(&at(recipient, t), 1), Ok(100));
}

#[test]
fn status_bit_operations() {
    let m = STATUS_ACTIVE | STATUS_REVOCABLE;
    assert_eq!(set_status(m, STATUS_PAUSED), STATUS_ACTIVE | STATUS_PAUSED | STATUS_REVOCABLE);
    assert_eq!(clear_status(m, STATUS_ACTIVE), STATUS_REVOCABLE);
    assert_eq!(toggle_status(m, STATUS_ACTIVE), STATUS_REVOCABLE);
    assert_eq!(toggle_status(toggle_status(m, STATUS_PAUSED), STATUS_PAUSED), m);
    assert!(has_status(m, STATUS_REVOCABLE));
    assert!(!has_status(m, STATUS_PAUSED));
    assert!(has_status(set_status(0, STATUS_CANCELLED), STATUS_CANCELLED));
    assert!(!has_status(clear_status(0x1ff, STATUS_CANCELLED), STATUS_CANCELLED));
}

#[test]
fn status_transition_rules() {
    assert_eq!(validate_status_transition(0, STATUS_ACTIVE), Ok(()));
    assert_eq!(validate_status_transition(STATUS_ACTIVE, STATUS_PAUSED), Ok(()));
    assert_eq!(validate_status_transition(STATUS_PAUSED, STATUS_ACTIVE), Ok(()));
    assert_eq!(validate_status_transition(STATUS_ACTIVE, STATUS_COMPLETED), Ok(()));
    assert_eq!(validate_status_transition(STATUS_PAUSED, STATUS_CANCELLED), Ok(()));
    assert_eq!(validate_status_transition(0, STATUS_PAUSED), Err(Error::InvalidStatusTransition));
    assert_eq!(
        validate_status_transition(STATUS_PAUSED, STATUS_ACTIVE | STATUS_PAUSED),
        Err(Error::InvalidStatusTransition)
    );
    assert_eq!(
        validate_status_transition(STATUS_COMPLETED, STATUS_ACTIVE),
        Err(Error::InvalidStatusTransition)
    );
    assert_eq!(
        validate_status_transition(STATUS_CANCELLED, STATUS_CANCELLED),
        Err(Error::InvalidStatusTransition)
    );
    assert_eq!(
        validate_status_transition(STATUS_ACTIVE, STATUS_COMPLETED | STATUS_ACTIVE),
        Err(Error::InvalidStatusTransition)
    );
}

#[test]
fn gas_benchmark_records_its_figures() {
    let b = GasBenchmark::new("Grant Creation (Optimized)", 31000, 1200, 45000);
    assert_eq!(b.operation, "Grant Creation (Optimized)");
    assert_eq!(b.gas_consumed, 31000);
    assert_eq!(b.storage_cost, 1200);
    assert_eq!(b.cpu_cost, 45000);
}

#[test]
fn storage_keys_are_distinct() {
    assert_ne!(DataKey::Admin, DataKey::Grant(1));
    assert_ne!(DataKey::Grant(1), DataKey::Grant(2));
    assert_eq!(DataKey::Grant(3), DataKey::Grant(3));
}

#[test]
fn precondition_predicates() {
    let g = Grant {
        recipient: addr(1),
        total_amount: 100,
        withdrawn: 40,
        claimable: 60,
        flow_rate: 1,
        last_update_ts: START,
        rate_updated_at: START,
        status_mask: STATUS_ACTIVE,
    };
    assert!(grant_is_well_formed(&g));
    assert!(!grant_is_well_formed(&Grant { claimable: 61, ..g }));
    assert!(!grant_is_well_formed(&Grant { flow_rate: -1, ..g }));

    let p = YieldPosition {
        strategy: 1,
        invested_amount: 100,
        current_value: 130,
        accrued_yield: 30,
        invested_at: START,
        last_yield_update: START,
        apy: 800,
    };
    assert!(position_is_consistent(&Some(p)));
    assert!(!position_is_consistent(&Some(YieldPosition { current_value: 131, ..p })));
    assert!(position_is_consistent(&None));

    let admin = addr(0);
    let recipient = addr(1);
    let mut c = GrantContract::new();
    c.initialize(&at(admin, START), admin).unwrap();
    let tokens = vec![create_token_balance(addr(2), 1000, 0), create_token_balance(addr(3), 10, 1)];
    c.create_multi_token_grant(&at(admin, START), 1, recipient, tokens, STATUS_ACTIVE).unwrap();
    let ws = vec![create_token_withdrawal(addr(3), 5)];
    assert!(c.multi_token_withdraw_computable(&at(recipient, START + 10), 1, &ws));
    let grant = c.get_multi_token_grant(&at(recipient, START), 1).unwrap();
    assert!(grant.is_well_formed());
}
