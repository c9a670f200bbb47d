use grant_contracts::address::Address;
use grant_contracts::contract::{GrantContract, Invocation};
use grant_contracts::error::Error;
use grant_contracts::status::{
    STATUS_ACTIVE, STATUS_AUTO_RENEW, STATUS_CANCELLED, STATUS_COMPLETED, STATUS_EMERGENCY_PAUSE,
    STATUS_MILESTONE_BASED, STATUS_PAUSED, STATUS_REVOCABLE,
};

const START: u64 = 1620000000;

fn addr(n: u8) -> Address {
    Address::from_public_key([n; 32])
}

fn at(caller: Address, timestamp: u64) -> Invocation {
    Invocation { caller, timestamp }
}

fn setup() -> (GrantContract, Address) {
    let admin = addr(0);
    let mut c = GrantContract::new();
    c.initialize(&at(admin, START), admin).unwrap();
    (c, admin)
}

#[test]
fn test_bitwise_status_operations() {
    let (mut c, admin) = setup();
    let inv = at(admin, START);
    c.create_grant(&inv, 1, addr(1), 1000000, 100, STATUS_ACTIVE).unwrap();

    assert!(c.is_grant_active(&inv, 1).unwrap());
    assert!(!c.is_grant_paused(&inv, 1).unwrap());
    assert!(!c.is_grant_completed(&inv, 1).unwrap());
    assert!(!c.is_grant_cancelled(&inv, 1).unwrap());

    c.pause_grant(&inv, 1).unwrap();
    assert!(!c.is_grant_active(&inv, 1).unwrap());
    assert!(c.is_grant_paused(&inv, 1).unwrap());
    assert!(!c.is_grant_completed(&inv, 1).unwrap());
    assert!(!c.is_grant_cancelled(&inv, 1).unwrap());

    c.resume_grant(&inv, 1).unwrap();
    assert!(c.is_grant_active(&inv, 1).unwrap());
    assert!(!c.is_grant_paused(&inv, 1).unwrap());

    c.cancel_grant(&inv, 1).unwrap();
    assert!(!c.is_grant_active(&inv, 1).unwrap());
    assert!(!c.is_grant_paused(&inv, 1).unwrap());
    assert!(!c.is_grant_completed(&inv, 1).unwrap());
    assert!(c.is_grant_cancelled(&inv, 1).unwrap());
}

#[test]
fn test_multiple_status_flags() {
    let (mut c, admin) = setup();
    let inv = at(admin, START);
    let initial_flags = STATUS_ACTIVE | STATUS_REVOCABLE | STATUS_MILESTONE_BASED;
    c.create_grant(&inv, 2, addr(2), 1000000, 100, initial_flags).unwrap();

    assert!(c.is_grant_active(&inv, 2).unwrap());
    let status = c.get_grant_status(&inv, 2).unwrap();
    assert!(status & STATUS_ACTIVE != 0);
    assert!(status & STATUS_REVOCABLE != 0);
    assert!(status & STATUS_MILESTONE_BASED != 0);

    c.set_grant_flags(&inv, 2, STATUS_PAUSED, STATUS_ACTIVE).unwrap();
    assert!(!c.is_grant_active(&inv, 2).unwrap());
    assert!(c.is_grant_paused(&inv, 2).unwrap());

    let updated_status = c.get_grant_status(&inv, 2).unwrap();
    assert!(updated_status & STATUS_PAUSED != 0);
    assert!(updated_status & STATUS_ACTIVE == 0);
    assert!(updated_status & STATUS_REVOCABLE != 0);
}

#[test]
fn test_storage_optimization() {
    let (mut c, admin) = setup();
    let inv = at(admin, START);
    let all_flags = STATUS_ACTIVE | STATUS_PAUSED | STATUS_COMPLETED | STATUS_CANCELLED
        | STATUS_REVOCABLE | STATUS_MILESTONE_BASED | STATUS_AUTO_RENEW | STATUS_EMERGENCY_PAUSE;
    c.create_grant(&inv, 1, addr(1), 1000000, 100, all_flags).unwrap();

    let status = c.get_grant_status(&inv, 1).unwrap();
    assert_eq!(status & STATUS_ACTIVE, STATUS_ACTIVE);
    assert_eq!(status & STATUS_PAUSED, STATUS_PAUSED);
    assert_eq!(status & STATUS_COMPLETED, STATUS_COMPLETED);
    assert_eq!(status & STATUS_CANCELLED, STATUS_CANCELLED);
    assert_eq!(status & STATUS_REVOCABLE, STATUS_REVOCABLE);
    assert_eq!(status & STATUS_MILESTONE_BASED, STATUS_MILESTONE_BASED);
    assert_eq!(status & STATUS_AUTO_RENEW, STATUS_AUTO_RENEW);
    assert_eq!(status & STATUS_EMERGENCY_PAUSE, STATUS_EMERGENCY_PAUSE);

    let grant = c.get_grant(&inv, 1).unwrap();
    assert_eq!(grant.status_mask, all_flags);
}

#[test]
fn test_status_transition_validation() {
    let (mut c, admin) = setup();
    let inv = at(admin, START);
    c.create_grant(&inv, 3, addr(3), 1000000, 100, STATUS_ACTIVE).unwrap();

    c.pause_grant(&inv, 3).unwrap();
    c.resume_grant(&inv, 3).unwrap();

    let recipient = addr(3);
    c.withdraw(&at(recipient, START), 3, 1000000).unwrap();

    assert!(c.is_grant_completed(&inv, 3).unwrap());

    let result = c.pause_grant(&inv, 3);
    assert!(result.is_err());
}

#[test]
fn completed_grant_refuses_status_changes() {
    let (mut c, admin) = setup();
    let recipient = addr(3);
    c.create_grant(&at(admin, START), 3, recipient, 1000000, 100, STATUS_ACTIVE).unwrap();
    // 10,000 seconds at 100 per second accrue the whole total.
    let later = START + 10000;
    assert_eq!(c.claimable(&at(recipient, later), 3), Ok(1000000));
    c.withdraw(&at(recipient, later), 3, 1000000).unwrap();
    assert!(c.is_grant_completed(&at(admin, later), 3).unwrap());
    assert!(!c.is_grant_active(&at(admin, later), 3).unwrap());

    assert_eq!(c.pause_grant(&at(admin, later), 3), Err(Error::InvalidState));
    assert_eq!(c.resume_grant(&at(admin, later), 3), Err(Error::InvalidState));
    assert_eq!(c.cancel_grant(&at(admin, later), 3), Err(Error::InvalidStatusTransition));
}

#[test]
fn test_large_scale_simulation() {
    let (mut c, admin) = setup();
    let inv = at(admin, START);
    for i in 1..=10000u64 {
        c.create_grant(&inv, i, addr((i % 255) as u8), 1000000, 100, STATUS_ACTIVE).unwrap();
    }
    for i in 1..=1000u64 {
        c.set_grant_flags(&inv, i, STATUS_PAUSED, 0).unwrap();
        assert_eq!(c.get_grant_status(&inv, i), Ok(STATUS_ACTIVE | STATUS_PAUSED));
    }
    // The gas bounds of this scenario are figures of the ledger's metering,
    // which the library does not have; the contracts' benchmarks measure them.
}

#[test]
fn claimable_accrues_at_rate_and_caps_at_total() {
    let (mut c, admin) = setup();
    let recipient = addr(1);
    c.create_grant(&at(admin, START), 1, recipient, 1000, 7, STATUS_ACTIVE).unwrap();
    assert_eq!(c.claimable(&at(recipient, START), 1), Ok(0));
    assert_eq!(c.claimable(&at(recipient, START + 10), 1), Ok(70));
    assert_eq!(c.claimable(&at(recipient, START + 142), 1), Ok(994));
    assert_eq!(c.claimable(&at(recipient, START + 143), 1), Ok(1000));
    assert_eq!(c.claimable(&at(recipient, START + 100000), 1), Ok(1000));
    // A read before the last update is refused.
    assert_eq!(c.claimable(&at(recipient, START - 1), 1), Err(Error::InvalidState));
}

#[test]
fn withdraw_moves_exactly_the_amount() {
    let (mut c, admin) = setup();
    let recipient = addr(1);
    c.create_grant(&at(admin, START), 1, recipient, 1000, 10, STATUS_ACTIVE).unwrap();
    let t = START + 30;
    c.withdraw(&at(recipient, t), 1, 120).unwrap();
    let g = c.get_grant(&at(recipient, t), 1).unwrap();
    assert_eq!(g.withdrawn, 120);
    assert_eq!(g.claimable, 180);
    assert_eq!(g.total_amount, 1000);
    assert_eq!(g.last_update_ts, t);

    // More than is left unpaid, nothing, or someone else: refused, nothing changes.
    assert_eq!(c.withdraw(&at(recipient, t), 1, 881), Err(Error::InvalidAmount));
    assert_eq!(c.withdraw(&at(recipient, t), 1, 0), Err(Error::InvalidAmount));
    assert_eq!(c.withdraw(&at(addr(9), t), 1, 10), Err(Error::NotAuthorized));
    assert_eq!(c.withdraw(&at(recipient, t), 2, 10), Err(Error::GrantNotFound));
    assert_eq!(c.get_grant(&at(recipient, t), 1).unwrap(), g);
}

#[test]
fn pause_then_resume_accrues_nothing_while_paused() {
    let (mut c, admin) = setup();
    let recipient = addr(1);
    c.create_grant(&at(admin, START), 1, recipient, 1000000, 5, STATUS_ACTIVE | STATUS_REVOCABLE)
        .unwrap();
    c.pause_grant(&at(admin, START + 10), 1).unwrap();
    assert_eq!(c.claimable(&at(recipient, START + 1000), 1), Ok(50));
    c.resume_grant(&at(admin, START + 1000), 1).unwrap();
    assert_eq!(c.get_grant_status(&at(admin, START + 1000), 1), Ok(STATUS_ACTIVE | STATUS_REVOCABLE));
    assert_eq!(c.claimable(&at(recipient, START + 1000), 1), Ok(50));
    assert_eq!(c.claimable(&at(recipient, START + 1010), 1), Ok(100));
}

#[test]
fn update_rate_settles_before_the_change() {
    let (mut c, admin) = setup();
    let recipient = addr(1);
    c.create_grant(&at(admin, START), 1, recipient, 1000000, 10, STATUS_ACTIVE).unwrap();
    c.update_rate(&at(admin, START + 100), 1, 50).unwrap();
    let g = c.get_grant(&at(admin, START + 100), 1).unwrap();
    assert_eq!(g.claimable, 1000);
    assert_eq!(g.flow_rate, 50);
    assert_eq!(g.rate_updated_at, START + 100);
    assert_eq!(c.claimable(&at(recipient, START + 110), 1), Ok(1500));
    assert_eq!(c.update_rate(&at(admin, START + 110), 1, -1), Err(Error::InvalidRate));
    assert_eq!(c.update_rate(&at(recipient, START + 110), 1, 1), Err(Error::NotAuthorized));
}

#[test]
fn administration_errors() {
    let mut c = GrantContract::new();
    let admin = addr(0);
    assert_eq!(
        c.create_grant(&at(admin, START), 1, addr(1), 10, 1, STATUS_ACTIVE),
        Err(Error::NotInitialized)
    );
    assert_eq!(c.initialize(&at(addr(5), START), admin), Err(Error::NotAuthorized));
    assert_eq!(c.admin(), None);
    c.initialize(&at(admin, START), admin).unwrap();
    assert_eq!(c.admin(), Some(admin));
    assert_eq!(c.initialize(&at(admin, START), admin), Err(Error::AlreadyInitialized));

    let inv = at(admin, START);
    assert_eq!(c.create_grant(&inv, 1, addr(1), 0, 1, STATUS_ACTIVE), Err(Error::InvalidAmount));
    assert_eq!(c.create_grant(&inv, 1, addr(1), 10, -1, STATUS_ACTIVE), Err(Error::InvalidRate));
    assert_eq!(
        c.create_grant(&inv, 1, addr(1), 10, 1, STATUS_PAUSED),
        Err(Error::InvalidStatusTransition)
    );
    c.create_grant(&inv, 1, addr(1), 10, 1, STATUS_ACTIVE).unwrap();
    assert_eq!(c.create_grant(&inv, 1, addr(1), 10, 1, STATUS_ACTIVE), Err(Error::GrantAlreadyExists));
    assert_eq!(c.create_grant(&at(addr(1), START), 2, addr(1), 10, 1, STATUS_ACTIVE), Err(Error::NotAuthorized));
    assert_eq!(c.pause_grant(&inv, 7), Err(Error::GrantNotFound));
    assert_eq!(c.resume_grant(&inv, 1), Err(Error::InvalidState));
}

#[test]
fn accrual_overflow_is_reported() {
    let (mut c, admin) = setup();
    let recipient = addr(1);
    c.create_grant(&at(admin, START), 1, recipient, i128::MAX, i128::MAX, STATUS_ACTIVE).unwrap();
    assert_eq!(c.claimable(&at(recipient, START + 2), 1), Err(Error::MathOverflow));
    assert_eq!(c.claimable(&at(recipient, START + 1), 1), Ok(i128::MAX));
}

#[test]
fn withdrawal_beyond_claimable_draws_ahead() {
    let (mut c, admin) = setup();
    let recipient = addr(1);
    c.create_grant(&at(admin, START), 1, recipient, 1000, 10, STATUS_ACTIVE).unwrap();
    // 100 accrued; 250 more is drawn ahead of accrual.
    c.withdraw(&at(recipient, START + 10), 1, 350).unwrap();
    let g = c.get_grant(&at(recipient, START + 10), 1).unwrap();
    assert_eq!(g.withdrawn, 350);
    assert_eq!(g.claimable, 0);
    // Accrual goes on on what is left unpaid of the total.
    assert_eq!(c.claimable(&at(recipient, START + 20), 1), Ok(100));
    assert_eq!(c.claimable(&at(recipient, START + 1000), 1), Ok(650));
    assert_eq!(c.withdraw(&at(recipient, START + 20), 1, 651), Err(Error::InvalidAmount));
    c.withdraw(&at(recipient, START + 20), 1, 650).unwrap();
    assert!(c.is_grant_completed(&at(recipient, START + 20), 1).unwrap());
}
