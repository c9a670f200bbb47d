use vstd::prelude::*;
use crate::address::Address;
use crate::contract::{
    GrantContractView, cancel_outcome, cancelled_mask, create_outcome, pause_outcome,
    paused_mask, preview_outcome, resume_outcome, resumed_mask, self_terminate_outcome,
    set_flags_outcome, terminated_mask, update_rate_outcome, withdraw_outcome,
};
use crate::error::{ContractError, Error, SelfTerminateError};
use crate::grant::{Grant, claimable_after, fits_i128, grant_wf, lemma_settle_well_formed, min_int, settle_outcome};
use crate::yield_enhanced::{
    EnhancedContractView, EnhancedError, emergency_divest_outcome, enhanced_divest_outcome, enhanced_invest_outcome,
    enhanced_position_at,
};
use crate::yield_treasury::{
    YieldPosition, YieldTreasuryContract, divest_outcome, invest_outcome, lemma_yield_formula, trunc_div,
    value_at,
};
use crate::status::{
    flag_set, STATUS_ACTIVE, STATUS_CANCELLED, STATUS_PAUSED, STATUS_SELF_TERMINATED,
};

verus! {

/// The paused mask of an active mask has the paused flag and not the active
/// one; resuming it gives the mask back when it was not flagged paused.
proof fn lemma_pause_resume_masks(m: u32)
    requires
        flag_set(m, STATUS_ACTIVE),
    ensures
        flag_set(paused_mask(m), STATUS_PAUSED),
        !flag_set(paused_mask(m), STATUS_ACTIVE),
        !flag_set(m, STATUS_PAUSED) ==> resumed_mask(paused_mask(m)) == m,
{
    assert(((m | 0x2u32) & !0x1u32) & 0x2u32 != 0) by (bit_vector);
    assert(((m | 0x2u32) & !0x1u32) & 0x1u32 == 0) by (bit_vector);
    assert(m & 0x1u32 != 0 && m & 0x2u32 == 0 ==> ((((m | 0x2u32) & !0x1u32) | 0x1u32) & !0x2u32)
        == m) by (bit_vector);
}

/// A cancelled or grantee-ended mask is neither active nor paused, and it
/// keeps the flag that marks it.
proof fn lemma_final_masks(m: u32)
    ensures
        flag_set(cancelled_mask(m), STATUS_CANCELLED),
        !flag_set(cancelled_mask(m), STATUS_ACTIVE),
        !flag_set(cancelled_mask(m), STATUS_PAUSED),
        flag_set(terminated_mask(m), STATUS_SELF_TERMINATED),
        !flag_set(terminated_mask(m), STATUS_ACTIVE),
        !flag_set(terminated_mask(m), STATUS_PAUSED),
{
    assert((((m | 0x8u32) & !0x1u32) & !0x2u32) & 0x8u32 != 0) by (bit_vector);
    assert((((m | 0x8u32) & !0x1u32) & !0x2u32) & 0x1u32 == 0) by (bit_vector);
    assert((((m | 0x8u32) & !0x1u32) & !0x2u32) & 0x2u32 == 0) by (bit_vector);
    assert((((m | 0x100u32) & !0x1u32) & !0x2u32) & 0x100u32 != 0) by (bit_vector);
    assert((((m | 0x100u32) & !0x1u32) & !0x2u32) & 0x1u32 == 0) by (bit_vector);
    assert((((m | 0x100u32) & !0x1u32) & !0x2u32) & 0x2u32 == 0) by (bit_vector);
}

/// A freshly created grant reads back as stored at the time of creation,
/// with nothing withdrawn or claimable; when created active and read later,
/// it has accrued its rate times the time elapsed, capped at its total.
pub proof fn law_create_then_read(
    s: GrantContractView,
    admin: Address,
    now: u64,
    id: u64,
    recipient: Address,
    total_amount: i128,
    flow_rate: i128,
    mask: u32,
    later: u64,
)
    requires
        s.wf(),
        create_outcome(s, admin, now, id, recipient, total_amount, flow_rate, mask) is Ok,
        now <= later,
    ensures
        ({
            let g = create_outcome(s, admin, now, id, recipient, total_amount, flow_rate, mask)->Ok_0;
            let s2 = s.with_grant(id, g);
            &&& g.recipient == recipient && g.total_amount == total_amount
            &&& g.withdrawn == 0 && g.claimable == 0 && g.flow_rate == flow_rate
            &&& g.status_mask == mask && g.last_update_ts == now
            &&& preview_outcome(s2, now, id) == Ok::<Grant, Error>(g)
            &&& flag_set(mask, STATUS_ACTIVE) && preview_outcome(s2, later, id) is Ok
                ==> preview_outcome(s2, later, id)->Ok_0.claimable
                == min_int(flow_rate * (later - now), total_amount as int)
        }),
{
    let g = create_outcome(s, admin, now, id, recipient, total_amount, flow_rate, mask)->Ok_0;
    assert(grant_wf(g));
    lemma_settle_well_formed(g, later);
    lemma_settle_well_formed(g, now);
}

/// Pausing an active grant and resuming it later gives its status back and
/// accrues nothing in between: the resumed grant holds what the paused one
/// held, at the rate it had. (A mask that was flagged paused while active
/// comes back without the paused flag.)
pub proof fn law_pause_then_resume(s: GrantContractView, admin: Address, t1: u64, t2: u64, id: u64)
    requires
        s.wf(),
        t1 <= t2,
        pause_outcome(s, admin, t1, id) is Ok,
        !flag_set(s.grants[id].status_mask, STATUS_PAUSED),
    ensures
        ({
            let p = pause_outcome(s, admin, t1, id)->Ok_0;
            let r = resume_outcome(s.with_grant(id, p), admin, t2, id);
            &&& flag_set(p.status_mask, STATUS_PAUSED) && !flag_set(p.status_mask, STATUS_ACTIVE)
            &&& r is Ok
            &&& r->Ok_0.status_mask == s.grants[id].status_mask
            &&& r->Ok_0.claimable == p.claimable
            &&& r->Ok_0.withdrawn == p.withdrawn
            &&& r->Ok_0.total_amount == s.grants[id].total_amount
            &&& r->Ok_0.flow_rate == s.grants[id].flow_rate
            &&& r->Ok_0.last_update_ts == t2
        }),
{
    let g = s.grants[id];
    lemma_settle_well_formed(g, t1);
    lemma_pause_resume_masks(g.status_mask);
    let p = pause_outcome(s, admin, t1, id)->Ok_0;
    assert(p.last_update_ts == t1);
    assert(s.with_grant(id, p).grants[id] == p);
}

/// Only the recipient of an active grant can withdraw, and never more than
/// is left unpaid of its total. A withdrawal adds exactly the amount to what
/// was withdrawn, taking it from the claimable amount of the grant as settled
/// at the time of the call first and drawing the rest ahead of accrual; the
/// total stays, and the accounting stays within it.
pub proof fn law_withdraw_pays_exactly(
    s: GrantContractView,
    caller: Address,
    now: u64,
    id: u64,
    amount: i128,
)
    requires
        s.wf(),
        withdraw_outcome(s, caller, now, id, amount) is Ok,
    ensures
        ({
            let g = s.grants[id];
            let h = settle_outcome(g, now)->Ok_0;
            let w = withdraw_outcome(s, caller, now, id, amount)->Ok_0;
            &&& caller == g.recipient
            &&& flag_set(g.status_mask, STATUS_ACTIVE)
            &&& 0 < amount <= g.total_amount - g.withdrawn
            &&& w.withdrawn == g.withdrawn + amount
            &&& w.claimable == claimable_after(h.claimable as int, amount as int)
            &&& w.total_amount == g.total_amount
            &&& w.withdrawn + w.claimable <= w.total_amount
            &&& w.recipient == g.recipient
        }),
{
    lemma_settle_well_formed(s.grants[id], now);
}

/// A cancelled grant stays cancelled: nothing more can be done to it by
/// anyone at any later time, neither cancelling, pausing, resuming,
/// re-flagging, re-rating, withdrawing nor ending it, and it accrues nothing.
pub proof fn law_cancellation_is_final(
    s: GrantContractView,
    admin: Address,
    now: u64,
    id: u64,
    caller: Address,
    later: u64,
    amount: i128,
    new_rate: i128,
    to_set: u32,
    to_clear: u32,
)
    requires
        s.wf(),
        cancel_outcome(s, admin, now, id) is Ok,
        now <= later,
    ensures
        ({
            let c = cancel_outcome(s, admin, now, id)->Ok_0;
            let s2 = s.with_grant(id, c);
            &&& flag_set(c.status_mask, STATUS_CANCELLED) && c.flow_rate == 0
            &&& cancel_outcome(s2, caller, later, id) is Err
            &&& pause_outcome(s2, caller, later, id) is Err
            &&& resume_outcome(s2, caller, later, id) is Err
            &&& set_flags_outcome(s2, caller, later, id, to_set, to_clear) is Err
            &&& update_rate_outcome(s2, caller, later, id, new_rate) is Err
            &&& withdraw_outcome(s2, caller, later, id, amount) is Err
            &&& self_terminate_outcome(s2, caller, later, id) is Err
            &&& settle_outcome(c, later) == Ok::<Grant, Error>(Grant { last_update_ts: later, ..c })
        }),
{
    let g = s.grants[id];
    lemma_settle_well_formed(g, now);
    lemma_final_masks(g.status_mask);
    let c = cancel_outcome(s, admin, now, id)->Ok_0;
    let s2 = s.with_grant(id, c);
    assert(s2.grants[id] == c);
    assert(c.status_mask == cancelled_mask(g.status_mask));
}

/// A grant ended by its recipient stays ended: ending it again is refused
/// as already done, nothing can be withdrawn from it, and it
/// accrues nothing further. What it held was paid out or refunded in full.
pub proof fn law_self_termination_is_final(
    s: GrantContractView,
    recipient: Address,
    now: u64,
    id: u64,
    caller: Address,
    later: u64,
    amount: i128,
)
    requires
        s.wf(),
        self_terminate_outcome(s, recipient, now, id) is Ok,
        now <= later,
    ensures
        ({
            let t = self_terminate_outcome(s, recipient, now, id)->Ok_0;
            let s2 = s.with_grant(id, t);
            &&& flag_set(t.status_mask, STATUS_SELF_TERMINATED)
            &&& t.claimable == 0 && t.flow_rate == 0
            &&& self_terminate_outcome(s2, caller, later, id) == Err::<Grant, ContractError>(
                ContractError::SelfTerminate(SelfTerminateError::AlreadyTerminated),
            )
            &&& withdraw_outcome(s2, caller, later, id, amount) is Err
            &&& settle_outcome(t, later) == Ok::<Grant, Error>(Grant { last_update_ts: later, ..t })
        }),
{
    let g = s.grants[id];
    lemma_settle_well_formed(g, now);
    let h = settle_outcome(g, now)->Ok_0;
    lemma_final_masks(h.status_mask);
    let t = self_terminate_outcome(s, recipient, now, id)->Ok_0;
    let s2 = s.with_grant(id, t);
    assert(s2.grants[id] == t);
    assert(t.status_mask == terminated_mask(h.status_mask));
}

/// Only the administrator administers grants: from any other caller,
/// creating, cancelling, pausing, resuming, re-flagging and re-rating a grant
/// are refused, before anything else is looked at.
pub proof fn law_only_admin_administers(
    s: GrantContractView,
    caller: Address,
    now: u64,
    id: u64,
    recipient: Address,
    total_amount: i128,
    flow_rate: i128,
    mask: u32,
    to_set: u32,
    to_clear: u32,
)
    requires
        s.admin != Some(caller),
    ensures
        create_outcome(s, caller, now, id, recipient, total_amount, flow_rate, mask) is Err,
        cancel_outcome(s, caller, now, id) is Err,
        pause_outcome(s, caller, now, id) is Err,
        resume_outcome(s, caller, now, id) is Err,
        set_flags_outcome(s, caller, now, id, to_set, to_clear) is Err,
        update_rate_outcome(s, caller, now, id, flow_rate) is Err,
{
}

/// Only the recipient of a grant can end it.
pub proof fn law_only_recipient_ends(s: GrantContractView, caller: Address, now: u64, id: u64)
    requires
        self_terminate_outcome(s, caller, now, id) is Ok,
    ensures
        s.grants.contains_key(id),
        caller == s.grants[id].recipient,
{
}

/// Investing and then taking everything out at the same moment closes the
/// position and gives the whole principal back to the reserve, with no
/// yield: the reserve is again the balance the investment was made from.
pub proof fn law_invest_then_divest_all(
    s: YieldTreasuryContract,
    admin: Address,
    now: u64,
    amount: i128,
    strategy: Option<u32>,
    balance: i128,
)
    requires
        invest_outcome(s, admin, now, amount, strategy, balance) is Ok,
        fits_i128(amount * 10000),
    ensures
        ({
            let s1 = invest_outcome(s, admin, now, amount, strategy, balance)->Ok_0;
            let r = divest_outcome(s1, admin, now, None);
            &&& r is Ok
            &&& r->Ok_0.position is None
            &&& r->Ok_0.reserve_balance == Some(balance)
            &&& r->Ok_0.metrics->Some_0.total_yield_earned
                == s.metrics->Some_0.total_yield_earned
            &&& r->Ok_0.metrics->Some_0.total_invested == s.metrics->Some_0.total_invested + amount
        }),
{
    assert((amount as int * 10000) / (amount as int) == 10000) by (nonlinear_arith)
        requires
            amount > 0,
    {
        vstd::arithmetic::div_mod::lemma_div_multiples_vanish(10000, amount as int);
    }
    assert((amount * 10000) / 10000 == amount as int) by (nonlinear_arith)
        requires
            amount > 0,
    {
        vstd::arithmetic::div_mod::lemma_div_multiples_vanish(amount as int, 10000);
    }
}

/// The treasury never invests below its minimum reserve: after any
/// investment the balance keeps at least the configured minimum share of it.
pub proof fn law_investment_keeps_reserve(
    s: YieldTreasuryContract,
    caller: Address,
    now: u64,
    amount: i128,
    strategy: Option<u32>,
    balance: i128,
)
    requires
        invest_outcome(s, caller, now, amount, strategy, balance) is Ok,
    ensures
        balance - amount >= trunc_div(balance * s.config->Some_0.min_reserve_ratio, 10000),
        invest_outcome(s, caller, now, amount, strategy, balance)->Ok_0.reserve_balance == Some(
            (balance - amount) as i128,
        ),
{
}

/// Grantees keep their liquidity: the yield-enhanced contract invests only
/// while the balance it leaves covers a fifth of everything its grants have
/// claimable, and never more than the balance.
pub proof fn law_investment_keeps_liquidity(
    s: EnhancedContractView,
    caller: Address,
    now: u64,
    amount: i128,
    strategy: Option<u32>,
    balance: i128,
)
    requires
        enhanced_invest_outcome(s, caller, now, amount, strategy, balance) is Ok,
    ensures
        balance - amount >= trunc_div(s.total_claimable() * 2000, 10000),
        0 < amount <= balance,
{
}

/// A divestment made to cover a withdrawal brings the position's yield up to
/// date first: what stays invested carries the withdrawal's time as its last
/// update and is still made up of its principal and its yield, and the
/// reserve grows by exactly what was taken out, the smaller of what was
/// needed and the position's value then. Without a position nothing can be
/// divested; otherwise it fails only when a sum leaves `i128`.
pub proof fn law_emergency_divest_accounts(s: EnhancedContractView, needed: i128, now: u64)
    requires
        s.wf(),
        needed > 0,
        emergency_divest_outcome(s, needed, now) is Some,
    ensures
        s.position is None ==> emergency_divest_outcome(s, needed, now) == Some(
            Err::<(Option<YieldPosition>, i128), EnhancedError>(EnhancedError::InvestmentInactive),
        ),
        s.position is Some ==> (emergency_divest_outcome(s, needed, now) matches Some(Err(e)) ==> e
            == EnhancedError::MathOverflow),
        emergency_divest_outcome(s, needed, now) matches Some(Ok((np, reserve))) ==> {
            let q = enhanced_position_at(s.position->Some_0, now)->Ok_0;
            let d = min_int(needed as int, q.current_value as int);
            &&& q.last_yield_update == now
            &&& q.current_value == q.invested_amount + q.accrued_yield
            &&& reserve == s.reserve_or_zero() + d
            &&& (np is None <==> d == q.current_value)
            &&& np matches Some(n) ==> {
                &&& n.current_value == q.current_value - d
                &&& n.current_value == n.invested_amount + n.accrued_yield
                &&& n.last_yield_update == now
            }
        },
{
}

/// Divesting moves value from the position to the reserve and loses none:
/// what is taken out is the amount asked for, or, with none asked, the whole
/// value of the position at that moment (principal and accrued yield plus
/// the yield earned since its last update); the reserve grows by exactly
/// that; the position keeps exactly the rest, with its yield brought up to
/// that moment, and closes when nothing is left.
pub proof fn law_divest_moves_value_to_reserve(
    s: YieldTreasuryContract,
    caller: Address,
    now: u64,
    amount: Option<i128>,
)
    requires
        s.wf(),
        s.position matches Some(p) && p.invested_amount >= 0 && p.apy >= 0,
        divest_outcome(s, caller, now, amount) is Ok,
    ensures
        ({
            let v = value_at(s.position->Some_0, now);
            let d: int = match amount {
                Some(a) => a as int,
                None => v,
            };
            let s2 = divest_outcome(s, caller, now, amount)->Ok_0;
            &&& amount is Some ==> 0 < d <= v
            &&& s.reserve_balance is Some
            &&& s2.reserve_balance == Some((s.reserve_balance->Some_0 + d) as i128)
            &&& (s2.position is None <==> d == v)
            &&& s2.position matches Some(q) ==> q.current_value == v - d && q.last_yield_update == now
            &&& s2.wf()
        }),
{
    lemma_yield_formula(s.position->Some_0, now);
}

/// The yield-enhanced contract divests as the treasury does: what is taken
/// out is the amount asked for, or, with none asked, the whole value of the
/// position at that moment (principal and accrued yield plus the yield earned
/// since its last update); the reserve (counted as zero when unset) grows by
/// exactly that; the position keeps exactly the rest, with its yield brought
/// up to that moment, and closes when nothing is left.
pub proof fn law_enhanced_divest_moves_value_to_reserve(
    s: EnhancedContractView,
    caller: Address,
    now: u64,
    amount: Option<i128>,
)
    requires
        s.wf(),
        s.position matches Some(p) && p.invested_amount >= 0 && p.apy >= 0,
        enhanced_divest_outcome(s, caller, now, amount) is Ok,
    ensures
        ({
            let p = s.position->Some_0;
            let v = value_at(p, now);
            let d: int = match amount {
                Some(a) => a as int,
                None => v,
            };
            let s2 = enhanced_divest_outcome(s, caller, now, amount)->Ok_0;
            &&& amount is Some ==> 0 < d <= v
            &&& s2.reserve_balance == Some((s.reserve_or_zero() + d) as i128)
            &&& (s2.position is None <==> d == v)
            &&& s2.position matches Some(q) ==> {
                &&& q.current_value == v - d
                &&& q.current_value == q.invested_amount + q.accrued_yield
                &&& q.last_yield_update == if now > p.last_yield_update {
                    now
                } else {
                    p.last_yield_update
                }
            }
        }),
{
    if now > s.position->Some_0.last_yield_update {
        lemma_yield_formula(s.position->Some_0, now);
    }
}

} // verus!
