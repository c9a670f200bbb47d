use grant_contracts::address::Address;
use grant_contracts::contract::{GrantContract, Invocation};
use grant_contracts::error::{ContractError, Error, SelfTerminateError};
use grant_contracts::status::{
    can_be_self_terminated, has_status, is_self_terminated, validate_self_terminate_transition,
    STATUS_ACTIVE, STATUS_CANCELLED, STATUS_COMPLETED, STATUS_PAUSED, STATUS_SELF_TERMINATED,
};

const START: u64 = 1620000000;

fn addr(n: u8) -> Address {
    Address::from_public_key([n; 32])
}

fn at(caller: Address, timestamp: u64) -> Invocation {
    Invocation { caller, timestamp }
}

fn setup() -> (GrantContract, Address, Address) {
    let admin = addr(0);
    let mut c = GrantContract::new();
    c.initialize(&at(admin, START), admin).unwrap();
    (c, admin, addr(1))
}

#[test]
fn test_self_terminate_basic() {
    let (mut c, admin, recipient) = setup();
    c.create_grant(&at(admin, START), 1, recipient, 1000000, 100, STATUS_ACTIVE).unwrap();

    let result = c.self_terminate(&at(recipient, START), 1).unwrap();
    assert_eq!(result.grant_id, 1u64);
    assert_eq!(result.final_claimable, 0i128);
    assert_eq!(result.refunded_amount, 1000000i128);
    assert_eq!(result.termination_reason, "Self-terminated by grantee");

    let grant = c.get_grant(&at(recipient, START), 1).unwrap();
    assert!(is_self_terminated(grant.status_mask));
    assert!(!has_status(grant.status_mask, STATUS_ACTIVE));
    assert_eq!(grant.flow_rate, 0i128);
}

#[test]
fn test_self_terminate_with_claimable_balance() {
    let (mut c, admin, recipient) = setup();
    c.create_grant(&at(admin, START), 2, recipient, 1000000, 100, STATUS_ACTIVE).unwrap();

    let later = 1620100000;
    let result = c.self_terminate(&at(recipient, later), 2).unwrap();
    assert_eq!(result.grant_id, 2u64);
    assert!(result.final_claimable > 0i128);
    assert!(result.refunded_amount < 1000000i128);
    assert_eq!(result.final_claimable + result.refunded_amount, 1000000i128);

    let grant = c.get_grant(&at(recipient, later), 2).unwrap();
    assert!(is_self_terminated(grant.status_mask));
    assert_eq!(grant.claimable, 0i128);
}

#[test]
fn test_self_terminate_paused_grant() {
    let (mut c, admin, recipient) = setup();
    c.create_grant(&at(admin, START), 3, recipient, 1000000, 100, STATUS_ACTIVE).unwrap();
    c.pause_grant(&at(admin, START), 3).unwrap();

    let result = c.self_terminate(&at(recipient, START), 3).unwrap();
    assert_eq!(result.grant_id, 3u64);
    assert_eq!(result.final_claimable, 0i128);
    assert_eq!(result.refunded_amount, 1000000i128);

    let grant = c.get_grant(&at(recipient, START), 3).unwrap();
    assert!(is_self_terminated(grant.status_mask));
}

#[test]
fn test_self_terminate_unauthorized() {
    let (mut c, admin, recipient) = setup();
    let unauthorized_user = addr(2);
    c.create_grant(&at(admin, START), 4, recipient, 1000000, 100, STATUS_ACTIVE).unwrap();
    let result = c.self_terminate(&at(unauthorized_user, START), 4);
    assert!(result.is_err());
}

#[test]
fn test_self_terminate_cancelled_grant() {
    let (mut c, admin, recipient) = setup();
    c.create_grant(&at(admin, START), 6, recipient, 1000000, 100, STATUS_ACTIVE).unwrap();
    c.cancel_grant(&at(admin, START), 6).unwrap();
    let result = c.self_terminate(&at(recipient, START), 6);
    assert!(result.is_err());
}

#[test]
fn test_self_terminate_already_terminated() {
    let (mut c, admin, recipient) = setup();
    c.create_grant(&at(admin, START), 7, recipient, 1000000, 100, STATUS_ACTIVE).unwrap();
    c.self_terminate(&at(recipient, START), 7).unwrap();
    let result = c.self_terminate(&at(recipient, START), 7);
    assert!(result.is_err());
}

#[test]
fn test_get_termination_details() {
    let (mut c, admin, recipient) = setup();
    c.create_grant(&at(admin, START), 12, recipient, 1000000, 100, STATUS_ACTIVE).unwrap();
    c.self_terminate(&at(recipient, START), 12).unwrap();

    let details = c.get_termination_details(&at(recipient, START), 12).unwrap();
    assert_eq!(details.grant_id, 12u64);
    assert_eq!(details.termination_reason, "Self-terminated by grantee");
    assert!(details.terminated_at > 0);
}

#[test]
fn test_get_termination_details_non_terminated() {
    let (mut c, admin, recipient) = setup();
    c.create_grant(&at(admin, START), 13, recipient, 1000000, 100, STATUS_ACTIVE).unwrap();
    let result = c.get_termination_details(&at(recipient, START), 13);
    assert!(result.is_err());
}

#[test]
fn test_self_terminate_edge_cases() {
    let (mut c, admin, recipient) = setup();
    c.create_grant(&at(admin, START), 14, recipient, 1000000, 0, STATUS_ACTIVE).unwrap();
    let result = c.self_terminate(&at(recipient, START), 14).unwrap();
    assert_eq!(result.final_claimable, 0i128);
    assert_eq!(result.refunded_amount, 1000000i128);

    c.create_grant(&at(admin, START), 15, recipient, 1, 1, STATUS_ACTIVE).unwrap();
    let result = c.self_terminate(&at(recipient, START), 15).unwrap();
    assert_eq!(result.final_claimable, 0i128);
    assert_eq!(result.refunded_amount, 1i128);
}

#[test]
fn test_self_terminate_completed_grant() {
    let (mut c, admin, recipient) = setup();
    c.create_grant(&at(admin, START), 5, recipient, 1000, 1000, STATUS_ACTIVE).unwrap();
    c.withdraw(&at(recipient, START), 5, 1000).unwrap();
    let result = c.self_terminate(&at(recipient, START), 5);
    assert!(result.is_err());
}

#[test]
fn test_can_self_terminate() {
    let (mut c, admin, recipient) = setup();
    let inv = at(admin, START);
    c.create_grant(&inv, 8, recipient, 1000000, 100, STATUS_ACTIVE).unwrap();
    assert!(c.can_self_terminate(&inv, 8).unwrap());

    c.create_grant(&inv, 9, recipient, 1000000, 100, STATUS_ACTIVE).unwrap();
    c.pause_grant(&inv, 9).unwrap();
    assert!(c.can_self_terminate(&inv, 9).unwrap());

    c.create_grant(&inv, 10, recipient, 1000, 1000, STATUS_ACTIVE).unwrap();
    c.withdraw(&at(recipient, START), 10, 1000).unwrap();
    assert!(!c.can_self_terminate(&inv, 10).unwrap());

    c.create_grant(&inv, 11, recipient, 1000000, 100, STATUS_ACTIVE).unwrap();
    c.cancel_grant(&inv, 11).unwrap();
    assert!(!c.can_self_terminate(&inv, 11).unwrap());
}

#[test]
fn self_terminate_refusals_by_status() {
    let (mut c, admin, recipient) = setup();
    let inv = at(admin, START);
    c.create_grant(&inv, 5, recipient, 1000, 1000, STATUS_ACTIVE).unwrap();
    c.withdraw(&at(recipient, START + 1), 5, 1000).unwrap();
    assert_eq!(
        c.self_terminate(&at(recipient, START + 1), 5),
        Err(ContractError::SelfTerminate(SelfTerminateError::CannotTerminateCompleted))
    );
    c.create_grant(&inv, 6, recipient, 1000, 1, STATUS_ACTIVE).unwrap();
    c.cancel_grant(&inv, 6).unwrap();
    assert_eq!(
        c.self_terminate(&at(recipient, START), 6),
        Err(ContractError::SelfTerminate(SelfTerminateError::CannotTerminateCancelled))
    );
    c.create_grant(&inv, 7, recipient, 1000, 1, STATUS_ACTIVE).unwrap();
    c.self_terminate(&at(recipient, START), 7).unwrap();
    assert_eq!(
        c.self_terminate(&at(recipient, START), 7),
        Err(ContractError::SelfTerminate(SelfTerminateError::AlreadyTerminated))
    );
    assert_eq!(c.can_self_terminate(&inv, 99), Err(Error::GrantNotFound));
}

#[test]
fn self_terminate_pays_claimable_and_refunds_rest() {
    let (mut c, admin, recipient) = setup();
    c.create_grant(&at(admin, START), 1, recipient, 10000, 10, STATUS_ACTIVE).unwrap();
    c.withdraw(&at(recipient, START + 100), 1, 400).unwrap();
    let result = c.self_terminate(&at(recipient, START + 300), 1).unwrap();
    // 3,000 accrued, 400 of it withdrawn before.
    assert_eq!(result.final_claimable, 2600);
    assert_eq!(result.refunded_amount, 7000);
    assert_eq!(result.terminated_at, START + 300);
    assert_eq!(result.final_claimable + result.refunded_amount + 400, 10000);

    let grant = c.get_grant(&at(recipient, START + 5000), 1).unwrap();
    assert_eq!(grant.withdrawn, 3000);
    assert_eq!(grant.claimable, 0);
    assert_eq!(grant.flow_rate, 0);
    assert_eq!(c.withdraw(&at(recipient, START + 5000), 1, 1), Err(Error::InvalidState));

    let details = c.get_termination_details(&at(recipient, START + 5000), 1).unwrap();
    assert_eq!(details.final_claimable, 0);
    assert_eq!(details.refunded_amount, 7000);
    assert_eq!(details.terminated_at, START);
}

#[test]
fn self_terminate_errors() {
    let (mut c, admin, recipient) = setup();
    assert_eq!(c.self_terminate(&at(recipient, START), 1), Err(ContractError::Grant(Error::GrantNotFound)));
    c.create_grant(&at(admin, START), 1, recipient, 1000, 1, STATUS_ACTIVE).unwrap();
    assert_eq!(c.self_terminate(&at(admin, START), 1), Err(ContractError::Grant(Error::NotAuthorized)));
    assert_eq!(c.self_terminate(&at(recipient, START - 1), 1), Err(ContractError::Grant(Error::InvalidState)));

    // A grant created cancelled cannot be ended by its recipient.
    c.create_grant(&at(admin, START), 2, recipient, 1000, 1, STATUS_CANCELLED).unwrap();
    assert_eq!(
        c.self_terminate(&at(recipient, START), 2),
        Err(ContractError::SelfTerminate(SelfTerminateError::CannotTerminateCancelled))
    );
}

#[test]
fn self_terminate_status_helpers() {
    assert!(can_be_self_terminated(STATUS_ACTIVE));
    assert!(can_be_self_terminated(STATUS_PAUSED));
    assert!(!can_be_self_terminated(0));
    assert!(!can_be_self_terminated(STATUS_ACTIVE | STATUS_COMPLETED));
    assert!(!can_be_self_terminated(STATUS_ACTIVE | STATUS_CANCELLED));
    assert!(!can_be_self_terminated(STATUS_ACTIVE | STATUS_SELF_TERMINATED));
    assert!(is_self_terminated(STATUS_SELF_TERMINATED | STATUS_CANCELLED));
    assert!(!is_self_terminated(STATUS_ACTIVE));

    assert_eq!(validate_self_terminate_transition(STATUS_ACTIVE, STATUS_SELF_TERMINATED), Ok(()));
    assert_eq!(validate_self_terminate_transition(0, STATUS_ACTIVE), Ok(()));
    assert_eq!(
        validate_self_terminate_transition(STATUS_COMPLETED, STATUS_SELF_TERMINATED),
        Err(Error::InvalidStatusTransition)
    );
    assert_eq!(
        validate_self_terminate_transition(0, STATUS_SELF_TERMINATED),
        Err(Error::InvalidStatusTransition)
    );
}
