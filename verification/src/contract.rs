use vstd::prelude::*;
use vstd::hash_map::HashMapWithView;
use crate::address::Address;
use crate::error::{ContractError, Error, SelfTerminateError, grant_result};
use crate::grant::{Grant, claimable_after, grant_wf, settle_outcome, settle_grant, completed_mask, lemma_settle_well_formed};
use crate::multi_token::{MultiTokenGrant, MultiTokenGrantView, multi_grant_wf};
use crate::status::{
    flag_set, has_status, set_status, clear_status, transition_allowed,
    validate_status_transition, self_termination_allowed, can_be_self_terminated, STATUS_ACTIVE,
    STATUS_PAUSED, STATUS_COMPLETED, STATUS_CANCELLED, STATUS_SELF_TERMINATED,
};

verus! {

/// The keys under which the grant contract keeps its state: the
/// administrator, and each grant by its id.
#[derive(Clone, Copy, Debug, PartialEq, Eq, Structural)]
pub enum DataKey {
    Admin,
    Grant(u64),
}

/// Who invokes a contract operation and when: the account whose
/// authorization the invocation carries, and the ledger time.
#[derive(Clone, Copy, Debug)]
pub struct Invocation {
    pub caller: Address,
    pub timestamp: u64,
}

/// The state of the grant contract: its administrator and the grants it
/// holds, single-token and multi-token grants sharing one space of ids.
pub struct GrantContract {
    pub admin: Option<Address>,
    pub grants: HashMapWithView<u64, Grant>,
    pub multi_grants: HashMapWithView<u64, MultiTokenGrant>,
}

/// The contract's state as mathematical values.
pub struct GrantContractView {
    pub admin: Option<Address>,
    pub grants: Map<u64, Grant>,
    pub multi_grants: Map<u64, MultiTokenGrantView>,
}

impl GrantContractView {
    /// What every reachable state keeps: every grant is well-formed, every
    /// multi-token grant is well-formed, and no id holds grants of both kinds.
    pub open spec fn wf(self) -> bool {
        &&& forall|id: u64| #[trigger] self.grants.contains_key(id) ==> grant_wf(self.grants[id])
        &&& forall|id: u64| #[trigger]
            self.multi_grants.contains_key(id) ==> multi_grant_wf(self.multi_grants[id])
        &&& forall|id: u64|
            !(#[trigger] self.grants.contains_key(id) && self.multi_grants.contains_key(id))
    }

    /// Whether some grant of either kind has id `id`.
    pub open spec fn has_id(self, id: u64) -> bool {
        self.grants.contains_key(id) || self.multi_grants.contains_key(id)
    }

    /// The state with grant `id` replaced by `g`.
    pub open spec fn with_grant(self, id: u64, g: Grant) -> GrantContractView {
        GrantContractView { grants: self.grants.insert(id, g), ..self }
    }

    /// The single-token grant `id`, or `GrantNotFound`.
    pub open spec fn lookup(self, id: u64) -> Result<Grant, Error> {
        if self.grants.contains_key(id) {
            Ok(self.grants[id])
        } else {
            Err(Error::GrantNotFound)
        }
    }

    /// Why `caller` may not act as administrator, if it may not.
    pub open spec fn admin_refusal(self, caller: Address) -> Option<Error> {
        match self.admin {
            None => Some(Error::NotInitialized),
            Some(a) => if a == caller {
                None
            } else {
                Some(Error::NotAuthorized)
            },
        }
    }
}

impl View for GrantContract {
    type V = GrantContractView;

    open spec fn view(&self) -> GrantContractView {
        GrantContractView {
            admin: self.admin,
            grants: self.grants@,
            multi_grants: self.multi_grants@.map_values(|g: MultiTokenGrant| g@),
        }
    }
}

/// The text that every self-termination record carries as its reason.
pub open spec fn termination_reason_text() -> Seq<char> {
    "Self-terminated by grantee"@
}

/// What a grantee's ending of a grant settled.
#[derive(Clone, Debug, PartialEq, Eq)]
pub struct SelfTerminateResult {
    pub grant_id: u64,
    pub final_claimable: i128,
    pub refunded_amount: i128,
    pub terminated_at: u64,
    pub termination_reason: String,
}

/// `mask` cancelled: the cancelled flag set, the active and paused flags cleared.
pub open spec fn cancelled_mask(mask: u32) -> u32 {
    ((mask | STATUS_CANCELLED) & !STATUS_ACTIVE) & !STATUS_PAUSED
}

/// `mask` paused: the paused flag set, the active flag cleared.
pub open spec fn paused_mask(mask: u32) -> u32 {
    (mask | STATUS_PAUSED) & !STATUS_ACTIVE
}

/// `mask` resumed: the active flag set, the paused flag cleared.
pub open spec fn resumed_mask(mask: u32) -> u32 {
    (mask | STATUS_ACTIVE) & !STATUS_PAUSED
}

/// `mask` ended by the grantee: the self-terminated flag set, the active and
/// paused flags cleared.
pub open spec fn terminated_mask(mask: u32) -> u32 {
    ((mask | STATUS_SELF_TERMINATED) & !STATUS_ACTIVE) & !STATUS_PAUSED
}

/// The grant that `create_grant` stores, or why it refuses.
pub open spec fn create_outcome(
    s: GrantContractView,
    caller: Address,
    now: u64,
    id: u64,
    recipient: Address,
    total_amount: i128,
    flow_rate: i128,
    mask: u32,
) -> Result<Grant, Error> {
    if s.admin_refusal(caller) is Some {
        Err(s.admin_refusal(caller)->Some_0)
    } else if total_amount <= 0 {
        Err(Error::InvalidAmount)
    } else if flow_rate < 0 {
        Err(Error::InvalidRate)
    } else if !transition_allowed(0, mask) {
        Err(Error::InvalidStatusTransition)
    } else if s.has_id(id) {
        Err(Error::GrantAlreadyExists)
    } else {
        Ok(
            Grant {
                recipient,
                total_amount,
                withdrawn: 0,
                claimable: 0,
                flow_rate,
                last_update_ts: now,
                rate_updated_at: now,
                status_mask: mask,
            },
        )
    }
}

/// The grant `id` settled at `now` and given status `new_mask` (and, when
/// `stop` holds, a zero rate), provided `caller` is the administrator.
pub open spec fn admin_restatus(
    s: GrantContractView,
    caller: Address,
    now: u64,
    id: u64,
    new_mask: u32,
    stop: bool,
) -> Result<Grant, Error> {
    match settle_outcome(s.lookup(id)->Ok_0, now) {
        Err(e) => Err(e),
        Ok(h) => Ok(
            Grant { status_mask: new_mask, flow_rate: if stop {
                0
            } else {
                h.flow_rate
            }, ..h },
        ),
    }
}

/// The grant that `cancel_grant` stores, or why it refuses.
pub open spec fn cancel_outcome(s: GrantContractView, caller: Address, now: u64, id: u64) -> Result<
    Grant,
    Error,
> {
    if s.admin_refusal(caller) is Some {
        Err(s.admin_refusal(caller)->Some_0)
    } else if s.lookup(id) is Err {
        Err(Error::GrantNotFound)
    } else {
        let m = s.grants[id].status_mask;
        if !transition_allowed(m, cancelled_mask(m)) {
            Err(Error::InvalidStatusTransition)
        } else {
            admin_restatus(s, caller, now, id, cancelled_mask(m), true)
        }
    }
}

/// The grant that `pause_grant` stores, or why it refuses.
pub open spec fn pause_outcome(s: GrantContractView, caller: Address, now: u64, id: u64) -> Result<
    Grant,
    Error,
> {
    if s.admin_refusal(caller) is Some {
        Err(s.admin_refusal(caller)->Some_0)
    } else if s.lookup(id) is Err {
        Err(Error::GrantNotFound)
    } else if !flag_set(s.grants[id].status_mask, STATUS_ACTIVE) {
        Err(Error::InvalidState)
    } else {
        admin_restatus(s, caller, now, id, paused_mask(s.grants[id].status_mask), false)
    }
}

/// The grant that `resume_grant` stores, or why it refuses.
pub open spec fn resume_outcome(s: GrantContractView, caller: Address, now: u64, id: u64) -> Result<
    Grant,
    Error,
> {
    if s.admin_refusal(caller) is Some {
        Err(s.admin_refusal(caller)->Some_0)
    } else if s.lookup(id) is Err {
        Err(Error::GrantNotFound)
    } else if !flag_set(s.grants[id].status_mask, STATUS_PAUSED) {
        Err(Error::InvalidState)
    } else {
        admin_restatus(s, caller, now, id, resumed_mask(s.grants[id].status_mask), false)
    }
}

/// The grant that `set_grant_flags` stores, or why it refuses.
pub open spec fn set_flags_outcome(
    s: GrantContractView,
    caller: Address,
    now: u64,
    id: u64,
    to_set: u32,
    to_clear: u32,
) -> Result<Grant, Error> {
    if s.admin_refusal(caller) is Some {
        Err(s.admin_refusal(caller)->Some_0)
    } else if s.lookup(id) is Err {
        Err(Error::GrantNotFound)
    } else {
        let m = s.grants[id].status_mask;
        let new_mask = (m | to_set) & !to_clear;
        if !transition_allowed(m, new_mask) {
            Err(Error::InvalidStatusTransition)
        } else {
            admin_restatus(s, caller, now, id, new_mask, false)
        }
    }
}

/// The grant `id` as it stands at `now`, or why it cannot be read.
pub open spec fn preview_outcome(s: GrantContractView, now: u64, id: u64) -> Result<Grant, Error> {
    match s.lookup(id) {
        Err(e) => Err(e),
        Ok(g) => settle_outcome(g, now),
    }
}

/// Whether the stored status of grant `id` has `flag`, provided the grant can
/// be brought up to `now`.
pub open spec fn status_query_outcome(s: GrantContractView, now: u64, id: u64, flag: u32) -> Result<
    bool,
    Error,
> {
    match preview_outcome(s, now, id) {
        Err(e) => Err(e),
        Ok(_) => Ok(flag_set(s.grants[id].status_mask, flag)),
    }
}

/// The grant that `withdraw` stores, or why it refuses: the grant settled at
/// `now` with `amount` added to what was withdrawn and taken from what is
/// claimable (see [`claimable_after`]), marked completed once everything is
/// accounted for.
pub open spec fn withdraw_outcome(
    s: GrantContractView,
    caller: Address,
    now: u64,
    id: u64,
    amount: i128,
) -> Result<Grant, Error> {
    if amount <= 0 {
        Err(Error::InvalidAmount)
    } else if s.lookup(id) is Err {
        Err(Error::GrantNotFound)
    } else if !flag_set(s.grants[id].status_mask, STATUS_ACTIVE) {
        Err(Error::InvalidState)
    } else if caller != s.grants[id].recipient {
        Err(Error::NotAuthorized)
    } else {
        match settle_outcome(s.grants[id], now) {
            Err(e) => Err(e),
            Ok(h) => if amount > h.total_amount - h.withdrawn {
                Err(Error::InvalidAmount)
            } else {
                let withdrawn = h.withdrawn + amount;
                let claimable = claimable_after(h.claimable as int, amount as int);
                Ok(
                    Grant {
                        withdrawn: withdrawn as i128,
                        claimable: claimable as i128,
                        status_mask: if withdrawn + claimable == h.total_amount {
                            completed_mask(h.status_mask)
                        } else {
                            h.status_mask
                        },
                        ..h
                    },
                )
            },
        }
    }
}

/// The grant that `update_rate` stores, or why it refuses.
pub open spec fn update_rate_outcome(
    s: GrantContractView,
    caller: Address,
    now: u64,
    id: u64,
    new_rate: i128,
) -> Result<Grant, Error> {
    if s.admin_refusal(caller) is Some {
        Err(s.admin_refusal(caller)->Some_0)
    } else if new_rate < 0 {
        Err(Error::InvalidRate)
    } else if s.lookup(id) is Err {
        Err(Error::GrantNotFound)
    } else if !flag_set(s.grants[id].status_mask, STATUS_ACTIVE) && !flag_set(
        s.grants[id].status_mask,
        STATUS_PAUSED,
    ) {
        Err(Error::InvalidState)
    } else {
        match settle_outcome(s.grants[id], now) {
            Err(e) => Err(e),
            Ok(h) => if !flag_set(h.status_mask, STATUS_ACTIVE) && !flag_set(
                h.status_mask,
                STATUS_PAUSED,
            ) {
                Err(Error::InvalidState)
            } else {
                Ok(Grant { flow_rate: new_rate, rate_updated_at: h.last_update_ts, ..h })
            },
        }
    }
}

/// The grant that `self_terminate` stores, or why it refuses.
///
/// The grant is settled at `now`; what is claimable then is paid out to the
/// grantee (it moves to the withdrawn amount) and what is left unaccounted is
/// refunded to the administrator. The grant stops accruing and is marked as
/// ended by its grantee.
pub open spec fn self_terminate_outcome(s: GrantContractView, caller: Address, now: u64, id: u64) -> Result<
    Grant,
    ContractError,
> {
    if s.lookup(id) is Err {
        Err(ContractError::Grant(Error::GrantNotFound))
    } else {
        let g = s.grants[id];
        match termination_refusal(g.status_mask) {
            Some(e) => Err(e),
            None => if caller != g.recipient {
                Err(ContractError::Grant(Error::NotAuthorized))
            } else {
                match settle_outcome(g, now) {
                    Err(e) => Err(ContractError::Grant(e)),
                    Ok(h) => if h.total_amount - (h.withdrawn + h.claimable) > 0 && s.admin is None {
                        Err(ContractError::Grant(Error::NotInitialized))
                } else {
                    Ok(
                        Grant {
                            withdrawn: (h.withdrawn + h.claimable) as i128,
                            claimable: 0,
                            flow_rate: 0,
                            status_mask: terminated_mask(h.status_mask),
                            ..h
                        },
                    )
                },
                }
            },
        }
    }
}

/// Why a grant with status `m` cannot be ended by its recipient, if it
/// cannot: it is ended already, completed, or cancelled (checked in that
/// order), or it is neither active nor paused.
pub open spec fn termination_refusal(m: u32) -> Option<ContractError> {
    if flag_set(m, STATUS_SELF_TERMINATED) {
        Some(ContractError::SelfTerminate(SelfTerminateError::AlreadyTerminated))
    } else if flag_set(m, STATUS_COMPLETED) {
        Some(ContractError::SelfTerminate(SelfTerminateError::CannotTerminateCompleted))
    } else if flag_set(m, STATUS_CANCELLED) {
        Some(ContractError::SelfTerminate(SelfTerminateError::CannotTerminateCancelled))
    } else if !flag_set(m, STATUS_ACTIVE) && !flag_set(m, STATUS_PAUSED) {
        Some(ContractError::Grant(Error::InvalidState))
    } else {
        None
    }
}

/// The grant `id` settled at `now`, on which `self_terminate` bases its payout.
pub open spec fn settled_before_termination(s: GrantContractView, now: u64, id: u64) -> Grant {
    settle_outcome(s.grants[id], now)->Ok_0
}

/// Checks that `grant` may be ended by its recipient (see
/// [`termination_refusal`]).
fn validate_termination_eligibility(grant: &Grant) -> (r: Result<(), ContractError>)
    ensures
        match termination_refusal(grant.status_mask) {
            Some(e) => r == Err::<(), ContractError>(e),
            None => r is Ok,
        },
{
    let mask = grant.status_mask;
    if has_status(mask, STATUS_SELF_TERMINATED) {
        return Err(ContractError::SelfTerminate(SelfTerminateError::AlreadyTerminated));
    }
    if has_status(mask, STATUS_COMPLETED) {
        return Err(ContractError::SelfTerminate(SelfTerminateError::CannotTerminateCompleted));
    }
    if has_status(mask, STATUS_CANCELLED) {
        return Err(ContractError::SelfTerminate(SelfTerminateError::CannotTerminateCancelled));
    }
    if !has_status(mask, STATUS_ACTIVE) && !has_status(mask, STATUS_PAUSED) {
        return Err(ContractError::Grant(Error::InvalidState));
    }
    Ok(())
}

impl GrantContract {
    /// The state invariant (see [`GrantContractView::wf`]).
    pub open spec fn wf(&self) -> bool {
        self@.wf()
    }

    /// A contract with no administrator and no grants.
    pub fn new() -> (c: GrantContract)
        ensures
            c.wf(),
            c@.admin is None,
            c@.grants == Map::<u64, Grant>::empty(),
            c@.multi_grants == Map::<u64, MultiTokenGrantView>::empty(),
    {
        let c = GrantContract {
            admin: None,
            grants: HashMapWithView::new(),
            multi_grants: HashMapWithView::new(),
        };
        assert(c@.multi_grants =~= Map::<u64, MultiTokenGrantView>::empty());
        c
    }

    /// The administrator, if the contract has been initialized.
    pub fn admin(&self) -> (r: Option<Address>)
        ensures
            r == self@.admin,
    {
        self.admin
    }

    pub(crate) fn require_admin(&self, caller: &Address) -> (r: Result<(), Error>)
        ensures
            match self@.admin_refusal(*caller) {
                Some(e) => r == Err::<(), Error>(e),
                None => r is Ok,
            },
    {
        match &self.admin {
            None => Err(Error::NotInitialized),
            Some(a) => if a.same_as(caller) {
                Ok(())
            } else {
                Err(Error::NotAuthorized)
            },
        }
    }

    fn read_grant(&self, grant_id: u64) -> (r: Result<Grant, Error>)
        ensures
            r == self@.lookup(grant_id),
    {
        match self.grants.get(&grant_id) {
            Some(g) => Ok(*g),
            None => Err(Error::GrantNotFound),
        }
    }

    fn write_grant(&mut self, grant_id: u64, grant: Grant)
        requires
            old(self).wf(),
            grant_wf(grant),
            !old(self)@.multi_grants.contains_key(grant_id),
        ensures
            final(self)@ == old(self)@.with_grant(grant_id, grant),
            final(self).wf(),
    {
        self.grants.insert(grant_id, grant);
    }

    /// Makes `admin` the administrator. Refused with `AlreadyInitialized` once
    /// an administrator is set, and with `NotAuthorized` unless `admin` itself
    /// authorizes the call.
    pub fn initialize(&mut self, inv: &Invocation, admin: Address) -> (r: Result<(), Error>)
        requires
            old(self).wf(),
        ensures
            final(self).wf(),
            old(self)@.admin is Some ==> r == Err::<(), Error>(Error::AlreadyInitialized),
            old(self)@.admin is None && inv.caller != admin ==> r == Err::<(), Error>(
                Error::NotAuthorized,
            ),
            old(self)@.admin is None && inv.caller == admin ==> (r is Ok),
            (r is Ok) ==> final(self)@ == (GrantContractView { admin: Some(admin), ..old(self)@ }),
            (r is Err) ==> final(self)@ == old(self)@,
    {
        if self.admin.is_some() {
            return Err(Error::AlreadyInitialized);
        }
        if !admin.same_as(&inv.caller) {
            return Err(Error::NotAuthorized);
        }
        self.admin = Some(admin);
        Ok(())
    }

    /// Creates grant `grant_id` streaming `total_amount` to `recipient` at
    /// `flow_rate` per second from now, with status `initial_status_mask`
    /// (see [`create_outcome`]).
    pub fn create_grant(
        &mut self,
        inv: &Invocation,
        grant_id: u64,
        recipient: Address,
        total_amount: i128,
        flow_rate: i128,
        initial_status_mask: u32,
    ) -> (r: Result<(), Error>)
        requires
            old(self).wf(),
        ensures
            final(self).wf(),
            match create_outcome(
                old(self)@,
                inv.caller,
                inv.timestamp,
                grant_id,
                recipient,
                total_amount,
                flow_rate,
                initial_status_mask,
            ) {
                Ok(g) => r is Ok && final(self)@ == old(self)@.with_grant(grant_id, g),
                Err(e) => r == Err::<(), Error>(e) && final(self)@ == old(self)@,
            },
    {
        self.require_admin(&inv.caller)?;
        if total_amount <= 0 {
            return Err(Error::InvalidAmount);
        }
        if flow_rate < 0 {
            return Err(Error::InvalidRate);
        }
        validate_status_transition(0, initial_status_mask)?;
        if self.grants.contains_key(&grant_id) || self.multi_grants.contains_key(&grant_id) {
            return Err(Error::GrantAlreadyExists);
        }
        proof {
            assert(self@.multi_grants.contains_key(grant_id) == self.multi_grants@.contains_key(grant_id));
        }
        let now = inv.timestamp;
        let grant = Grant {
            recipient,
            total_amount,
            withdrawn: 0,
            claimable: 0,
            flow_rate,
            last_update_ts: now,
            rate_updated_at: now,
            status_mask: initial_status_mask,
        };
        self.write_grant(grant_id, grant);
        Ok(())
    }

    /// Cancels grant `grant_id`: it is settled, stops accruing and is marked
    /// cancelled, no longer active or paused (see [`cancel_outcome`]).
    pub fn cancel_grant(&mut self, inv: &Invocation, grant_id: u64) -> (r: Result<(), Error>)
        requires
            old(self).wf(),
        ensures
            final(self).wf(),
            match cancel_outcome(old(self)@, inv.caller, inv.timestamp, grant_id) {
                Ok(g) => r is Ok && final(self)@ == old(self)@.with_grant(grant_id, g),
                Err(e) => r == Err::<(), Error>(e) && final(self)@ == old(self)@,
            },
    {
        self.require_admin(&inv.caller)?;
        let mut grant = self.read_grant(grant_id)?;
        let current_mask = grant.status_mask;
        let new_mask = clear_status(
            clear_status(set_status(current_mask, STATUS_CANCELLED), STATUS_ACTIVE),
            STATUS_PAUSED,
        );
        validate_status_transition(current_mask, new_mask)?;
        proof {
            lemma_settle_well_formed(grant, inv.timestamp);
        }
        settle_grant(&mut grant, inv.timestamp)?;
        grant.status_mask = new_mask;
        grant.flow_rate = 0;
        self.write_grant(grant_id, grant);
        Ok(())
    }

    /// Pauses the active grant `grant_id`: it is settled and marked paused,
    /// no longer active (see [`pause_outcome`]).
    pub fn pause_grant(&mut self, inv: &Invocation, grant_id: u64) -> (r: Result<(), Error>)
        requires
            old(self).wf(),
        ensures
            final(self).wf(),
            match pause_outcome(old(self)@, inv.caller, inv.timestamp, grant_id) {
                Ok(g) => r is Ok && final(self)@ == old(self)@.with_grant(grant_id, g),
                Err(e) => r == Err::<(), Error>(e) && final(self)@ == old(self)@,
            },
    {
        self.require_admin(&inv.caller)?;
        let mut grant = self.read_grant(grant_id)?;
        let current_mask = grant.status_mask;
        if !has_status(current_mask, STATUS_ACTIVE) {
            return Err(Error::InvalidState);
        }
        let new_mask = clear_status(set_status(current_mask, STATUS_PAUSED), STATUS_ACTIVE);
        proof {
            lemma_settle_well_formed(grant, inv.timestamp);
        }
        settle_grant(&mut grant, inv.timestamp)?;
        grant.status_mask = new_mask;
        self.write_grant(grant_id, grant);
        Ok(())
    }

    /// Resumes the paused grant `grant_id`: it is settled and marked active,
    /// no longer paused (see [`resume_outcome`]).
    pub fn resume_grant(&mut self, inv: &Invocation, grant_id: u64) -> (r: Result<(), Error>)
        requires
            old(self).wf(),
        ensures
            final(self).wf(),
            match resume_outcome(old(self)@, inv.caller, inv.timestamp, grant_id) {
                Ok(g) => r is Ok && final(self)@ == old(self)@.with_grant(grant_id, g),
                Err(e) => r == Err::<(), Error>(e) && final(self)@ == old(self)@,
            },
    {
        self.require_admin(&inv.caller)?;
        let mut grant = self.read_grant(grant_id)?;
        let current_mask = grant.status_mask;
        if !has_status(current_mask, STATUS_PAUSED) {
            return Err(Error::InvalidState);
        }
        let new_mask = clear_status(set_status(current_mask, STATUS_ACTIVE), STATUS_PAUSED);
        proof {
            lemma_settle_well_formed(grant, inv.timestamp);
        }
        settle_grant(&mut grant, inv.timestamp)?;
        grant.status_mask = new_mask;
        self.write_grant(grant_id, grant);
        Ok(())
    }

    /// Sets the flags of `flags_to_set` and then clears those of
    /// `flags_to_clear` on grant `grant_id`, after checking the change against
    /// the state machine (see [`set_flags_outcome`]).
    pub fn set_grant_flags(
        &mut self,
        inv: &Invocation,
        grant_id: u64,
        flags_to_set: u32,
        flags_to_clear: u32,
    ) -> (r: Result<(), Error>)
        requires
            old(self).wf(),
        ensures
            final(self).wf(),
            match set_flags_outcome(
                old(self)@,
                inv.caller,
                inv.timestamp,
                grant_id,
                flags_to_set,
                flags_to_clear,
            ) {
                Ok(g) => r is Ok && final(self)@ == old(self)@.with_grant(grant_id, g),
                Err(e) => r == Err::<(), Error>(e) && final(self)@ == old(self)@,
            },
    {
        self.require_admin(&inv.caller)?;
        let mut grant = self.read_grant(grant_id)?;
        let current_mask = grant.status_mask;
        let new_mask = (current_mask | flags_to_set) & !flags_to_clear;
        validate_status_transition(current_mask, new_mask)?;
        proof {
            lemma_settle_well_formed(grant, inv.timestamp);
        }
        settle_grant(&mut grant, inv.timestamp)?;
        grant.status_mask = new_mask;
        self.write_grant(grant_id, grant);
        Ok(())
    }

    /// Grant `grant_id` as it stands at the invocation's time, without
    /// storing anything.
    pub fn get_grant(&self, inv: &Invocation, grant_id: u64) -> (r: Result<Grant, Error>)
        ensures
            r == preview_outcome(self@, inv.timestamp, grant_id),
    {
        let mut grant = self.read_grant(grant_id)?;
        settle_grant(&mut grant, inv.timestamp)?;
        Ok(grant)
    }

    /// The stored status mask of grant `grant_id`.
    pub fn get_grant_status(&self, inv: &Invocation, grant_id: u64) -> (r: Result<u32, Error>)
        ensures
            match self@.lookup(grant_id) {
                Ok(g) => r == Ok::<u32, Error>(g.status_mask),
                Err(e) => r == Err::<u32, Error>(e),
            },
    {
        let grant = self.read_grant(grant_id)?;
        Ok(grant.status_mask)
    }

    fn stored_status_has(&self, inv: &Invocation, grant_id: u64, flag: u32) -> (r: Result<
        bool,
        Error,
    >)
        ensures
            r == status_query_outcome(self@, inv.timestamp, grant_id, flag),
    {
        let grant = self.read_grant(grant_id)?;
        let mut preview = grant;
        settle_grant(&mut preview, inv.timestamp)?;
        Ok(has_status(grant.status_mask, flag))
    }

    /// Whether grant `grant_id` is stored as active (see [`status_query_outcome`]).
    pub fn is_grant_active(&self, inv: &Invocation, grant_id: u64) -> (r: Result<bool, Error>)
        ensures
            r == status_query_outcome(self@, inv.timestamp, grant_id, STATUS_ACTIVE),
    {
        self.stored_status_has(inv, grant_id, STATUS_ACTIVE)
    }

    /// Whether grant `grant_id` is stored as paused (see [`status_query_outcome`]).
    pub fn is_grant_paused(&self, inv: &Invocation, grant_id: u64) -> (r: Result<bool, Error>)
        ensures
            r == status_query_outcome(self@, inv.timestamp, grant_id, STATUS_PAUSED),
    {
        self.stored_status_has(inv, grant_id, STATUS_PAUSED)
    }

    /// Whether grant `grant_id` is stored as completed (see [`status_query_outcome`]).
    pub fn is_grant_completed(&self, inv: &Invocation, grant_id: u64) -> (r: Result<bool, Error>)
        ensures
            r == status_query_outcome(self@, inv.timestamp, grant_id, STATUS_COMPLETED),
    {
        self.stored_status_has(inv, grant_id, STATUS_COMPLETED)
    }

    /// Whether grant `grant_id` is stored as cancelled (see [`status_query_outcome`]).
    pub fn is_grant_cancelled(&self, inv: &Invocation, grant_id: u64) -> (r: Result<bool, Error>)
        ensures
            r == status_query_outcome(self@, inv.timestamp, grant_id, STATUS_CANCELLED),
    {
        self.stored_status_has(inv, grant_id, STATUS_CANCELLED)
    }

    /// What the recipient of grant `grant_id` could withdraw at the
    /// invocation's time.
    pub fn claimable(&self, inv: &Invocation, grant_id: u64) -> (r: Result<i128, Error>)
        ensures
            match preview_outcome(self@, inv.timestamp, grant_id) {
                Ok(g) => r == Ok::<i128, Error>(g.claimable),
                Err(e) => r == Err::<i128, Error>(e),
            },
    {
        let grant = self.get_grant(inv, grant_id)?;
        Ok(grant.claimable)
    }

    /// Pays `amount` out of the active grant `grant_id` to its recipient, who
    /// must authorize the call: from what has accrued first, the rest drawn
    /// ahead of accrual, never more than is left unpaid of the total; the
    /// grant completes once everything is accounted for (see
    /// [`withdraw_outcome`] and [`claimable_after`]).
    pub fn withdraw(&mut self, inv: &Invocation, grant_id: u64, amount: i128) -> (r: Result<
        (),
        Error,
    >)
        requires
            old(self).wf(),
        ensures
            final(self).wf(),
            match withdraw_outcome(old(self)@, inv.caller, inv.timestamp, grant_id, amount) {
                Ok(g) => r is Ok && final(self)@ == old(self)@.with_grant(grant_id, g),
                Err(e) => r == Err::<(), Error>(e) && final(self)@ == old(self)@,
            },
    {
        if amount <= 0 {
            return Err(Error::InvalidAmount);
        }
        let mut grant = self.read_grant(grant_id)?;
        if !has_status(grant.status_mask, STATUS_ACTIVE) {
            return Err(Error::InvalidState);
        }
        if !grant.recipient.same_as(&inv.caller) {
            return Err(Error::NotAuthorized);
        }
        proof {
            lemma_settle_well_formed(grant, inv.timestamp);
        }
        settle_grant(&mut grant, inv.timestamp)?;
        if amount > grant.total_amount - grant.withdrawn {
            return Err(Error::InvalidAmount);
        }
        grant.claimable = if amount <= grant.claimable {
            grant.claimable - amount
        } else {
            0
        };
        grant.withdrawn = grant.withdrawn + amount;
        let accounted = grant.withdrawn + grant.claimable;
        if accounted == grant.total_amount {
            grant.status_mask = set_status(grant.status_mask, STATUS_COMPLETED);
            grant.status_mask = clear_status(grant.status_mask, STATUS_ACTIVE);
        }
        self.write_grant(grant_id, grant);
        Ok(())
    }

    /// Sets the rate of the active or paused grant `grant_id` to `new_rate`
    /// from now on; what accrued at the old rate is settled first (see
    /// [`update_rate_outcome`]).
    pub fn update_rate(&mut self, inv: &Invocation, grant_id: u64, new_rate: i128) -> (r: Result<
        (),
        Error,
    >)
        requires
            old(self).wf(),
        ensures
            final(self).wf(),
            match update_rate_outcome(old(self)@, inv.caller, inv.timestamp, grant_id, new_rate) {
                Ok(g) => r is Ok && final(self)@ == old(self)@.with_grant(grant_id, g),
                Err(e) => r == Err::<(), Error>(e) && final(self)@ == old(self)@,
            },
    {
        self.require_admin(&inv.caller)?;
        if new_rate < 0 {
            return Err(Error::InvalidRate);
        }
        let mut grant = self.read_grant(grant_id)?;
        if !has_status(grant.status_mask, STATUS_ACTIVE) && !has_status(
            grant.status_mask,
            STATUS_PAUSED,
        ) {
            return Err(Error::InvalidState);
        }
        proof {
            lemma_settle_well_formed(grant, inv.timestamp);
        }
        settle_grant(&mut grant, inv.timestamp)?;
        if !has_status(grant.status_mask, STATUS_ACTIVE) && !has_status(
            grant.status_mask,
            STATUS_PAUSED,
        ) {
            return Err(Error::InvalidState);
        }
        grant.flow_rate = new_rate;
        grant.rate_updated_at = grant.last_update_ts;
        self.write_grant(grant_id, grant);
        Ok(())
    }

    /// Lets the recipient of grant `grant_id` end it: the grant is settled,
    /// its claimable amount is paid to the recipient, the rest of its total is
    /// refunded to the administrator, and it stops (see
    /// [`self_terminate_outcome`]). The record says what was paid and refunded;
    /// together with what had been withdrawn before they make up the total.
    pub fn self_terminate(&mut self, inv: &Invocation, grant_id: u64) -> (r: Result<
        SelfTerminateResult,
        ContractError,
    >)
        requires
            old(self).wf(),
        ensures
            final(self).wf(),
            match self_terminate_outcome(old(self)@, inv.caller, inv.timestamp, grant_id) {
                Ok(g) => {
                    let h = settled_before_termination(old(self)@, inv.timestamp, grant_id);
                    &&& r is Ok
                    &&& final(self)@ == old(self)@.with_grant(grant_id, g)
                    &&& r->Ok_0.grant_id == grant_id
                    &&& r->Ok_0.final_claimable == h.claimable
                    &&& r->Ok_0.refunded_amount == h.total_amount - (h.withdrawn + h.claimable)
                    &&& r->Ok_0.terminated_at == inv.timestamp
                    &&& r->Ok_0.termination_reason@ == termination_reason_text()
                    &&& r->Ok_0.final_claimable + r->Ok_0.refunded_amount
                        + old(self)@.grants[grant_id].withdrawn
                        == old(self)@.grants[grant_id].total_amount
                },
                Err(e) => r is Err && r->Err_0 == e && final(self)@ == old(self)@,
            },
    {
        let mut grant = grant_result(self.read_grant(grant_id))?;
        validate_termination_eligibility(&grant)?;
        if !grant.recipient.same_as(&inv.caller) {
            return Err(ContractError::Grant(Error::NotAuthorized));
        }
        proof {
            lemma_settle_well_formed(grant, inv.timestamp);
        }
        grant_result(settle_grant(&mut grant, inv.timestamp))?;
        let final_claimable = grant.claimable;
        let total_accounted = grant.withdrawn + final_claimable;
        let remaining_balance = grant.total_amount - total_accounted;
        if remaining_balance > 0 && self.admin.is_none() {
            return Err(ContractError::Grant(Error::NotInitialized));
        }
        grant.status_mask = clear_status(
            clear_status(set_status(grant.status_mask, STATUS_SELF_TERMINATED), STATUS_ACTIVE),
            STATUS_PAUSED,
        );
        grant.flow_rate = 0;
        grant.withdrawn = total_accounted;
        grant.claimable = 0;
        self.write_grant(grant_id, grant);
        Ok(
            SelfTerminateResult {
                grant_id,
                final_claimable,
                refunded_amount: remaining_balance,
                terminated_at: inv.timestamp,
                termination_reason: "Self-terminated by grantee".to_owned(),
            },
        )
    }

    /// What the ending of grant `grant_id` by its recipient settled, read from
    /// the stored grant; the time recorded is the grant's last rate change.
    /// Refused with `InvalidState` unless the grant was ended by its recipient.
    pub fn get_termination_details(&self, inv: &Invocation, grant_id: u64) -> (r: Result<
        SelfTerminateResult,
        Error,
    >)
        requires
            self.wf(),
        ensures
            match self@.lookup(grant_id) {
                Err(e) => r is Err && r->Err_0 == e,
                Ok(g) => if !flag_set(g.status_mask, STATUS_SELF_TERMINATED) {
                    r is Err && r->Err_0 == Error::InvalidState
                } else {
                    &&& r is Ok
                    &&& r->Ok_0.grant_id == grant_id
                    &&& r->Ok_0.final_claimable == g.claimable
                    &&& r->Ok_0.refunded_amount == g.total_amount - (g.withdrawn + g.claimable)
                    &&& r->Ok_0.terminated_at == g.rate_updated_at
                    &&& r->Ok_0.termination_reason@ == termination_reason_text()
                },
            },
    {
        let grant = self.read_grant(grant_id)?;
        if !has_status(grant.status_mask, STATUS_SELF_TERMINATED) {
            return Err(Error::InvalidState);
        }
        let total_accounted = grant.withdrawn + grant.claimable;
        let remaining_balance = grant.total_amount - total_accounted;
        Ok(
            SelfTerminateResult {
                grant_id,
                final_claimable: grant.claimable,
                refunded_amount: remaining_balance,
                terminated_at: grant.rate_updated_at,
                termination_reason: "Self-terminated by grantee".to_owned(),
            },
        )
    }

    /// Whether the recipient of grant `grant_id` may end it now.
    pub fn can_self_terminate(&self, inv: &Invocation, grant_id: u64) -> (r: Result<bool, Error>)
        ensures
            match self@.lookup(grant_id) {
                Ok(g) => r == Ok::<bool, Error>(self_termination_allowed(g.status_mask)),
                Err(e) => r == Err::<bool, Error>(e),
            },
    {
        let grant = self.read_grant(grant_id)?;
        Ok(can_be_self_terminated(grant.status_mask))
    }
}

} // verus!
