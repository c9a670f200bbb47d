use vstd::prelude::*;
use crate::address::Address;
use crate::error::Error;
use crate::status::{flag_set, has_status, set_status, clear_status, STATUS_ACTIVE, STATUS_COMPLETED};

verus! {

/// A stream of funds to one recipient: `flow_rate` units accrue per second
/// while the grant is active, up to `total_amount` in all.
#[derive(Clone, Copy, Debug, PartialEq, Eq)]
pub struct Grant {
    pub recipient: Address,
    pub total_amount: i128,
    pub withdrawn: i128,
    pub claimable: i128,
    pub flow_rate: i128,
    pub last_update_ts: u64,
    pub rate_updated_at: u64,
    pub status_mask: u32,
}

/// Whether `x` can be held in an `i128`.
pub open spec fn fits_i128(x: int) -> bool {
    i128::MIN <= x <= i128::MAX
}

/// The smaller of two integers.
pub open spec fn min_int(a: int, b: int) -> int {
    if a <= b {
        a
    } else {
        b
    }
}

/// `mask` with the completed flag set and the active flag cleared.
pub open spec fn completed_mask(mask: u32) -> u32 {
    (mask | STATUS_COMPLETED) & !STATUS_ACTIVE
}

/// The accounting that every stored grant keeps: nothing is negative, the
/// withdrawn and claimable amounts together never exceed the total, and the
/// rate is not negative.
pub open spec fn grant_wf(g: Grant) -> bool {
    &&& 0 <= g.withdrawn
    &&& 0 <= g.claimable
    &&& g.withdrawn + g.claimable <= g.total_amount
    &&& 0 <= g.flow_rate
}

/// Whether `g` keeps the accounting of [`grant_wf`].
pub fn grant_is_well_formed(g: &Grant) -> (r: bool)
    ensures
        r == grant_wf(*g),
{
    g.withdrawn >= 0 && g.claimable >= 0 && g.flow_rate >= 0 && match g.withdrawn.checked_add(
        g.claimable,
    ) {
        Some(a) => a <= g.total_amount,
        None => false,
    }
}

/// What is left of the grant once withdrawn and claimable amounts are
/// accounted for.
pub open spec fn unaccounted(g: Grant) -> int {
    g.total_amount - (g.withdrawn + g.claimable)
}

/// The grant brought up to time `now`, or why that fails.
///
/// An active grant with a non-zero rate gains `flow_rate * elapsed`
/// claimable units, capped at what is left unaccounted; once everything is
/// accounted for it is marked completed and no longer active. Any other grant
/// only has its update time moved to `now`. The computation fails on a time
/// before the last update, a negative rate of an accruing grant, arithmetic
/// that leaves `i128`, or a grant whose accounting already exceeds its total.
pub open spec fn settle_outcome(g: Grant, now: u64) -> Result<Grant, Error> {
    if now < g.last_update_ts {
        Err(Error::InvalidState)
    } else {
        let elapsed = now - g.last_update_ts;
        let moved = Grant { last_update_ts: now, ..g };
        if !flag_set(g.status_mask, STATUS_ACTIVE) || elapsed == 0 || g.flow_rate == 0 {
            Ok(moved)
        } else if g.flow_rate < 0 {
            Err(Error::InvalidRate)
        } else {
            let accrued = g.flow_rate * elapsed;
            let accounted = g.withdrawn + g.claimable;
            if !fits_i128(accrued) || !fits_i128(accounted) {
                Err(Error::MathOverflow)
            } else if accounted > g.total_amount {
                Err(Error::InvalidState)
            } else if !fits_i128(g.total_amount - accounted) {
                Err(Error::MathOverflow)
            } else {
                let claimable = g.claimable + min_int(accrued, g.total_amount - accounted);
                if !fits_i128(claimable) || !fits_i128(g.withdrawn + claimable) {
                    Err(Error::MathOverflow)
                } else {
                    Ok(
                        Grant {
                            claimable: claimable as i128,
                            status_mask: if g.withdrawn + claimable == g.total_amount {
                                completed_mask(g.status_mask)
                            } else {
                                g.status_mask
                            },
                            ..moved
                        },
                    )
                }
            }
        }
    }
}

/// Brings `grant` up to time `now` (see [`settle_outcome`]); on failure the
/// grant is left as it was.
pub fn settle_grant(grant: &mut Grant, now: u64) -> (r: Result<(), Error>)
    ensures
        match settle_outcome(*old(grant), now) {
            Ok(g) => r is Ok && *final(grant) == g,
            Err(e) => r == Err::<(), Error>(e) && *final(grant) == *old(grant),
        },
{
    if now < grant.last_update_ts {
        return Err(Error::InvalidState);
    }
    let elapsed = now - grant.last_update_ts;
    if !has_status(grant.status_mask, STATUS_ACTIVE) || elapsed == 0 || grant.flow_rate == 0 {
        grant.last_update_ts = now;
        return Ok(());
    }
    if grant.flow_rate < 0 {
        return Err(Error::InvalidRate);
    }
    let elapsed_i128 = elapsed as i128;
    let accrued = match grant.flow_rate.checked_mul(elapsed_i128) {
        Some(v) => v,
        None => return Err(Error::MathOverflow),
    };
    let accounted = match grant.withdrawn.checked_add(grant.claimable) {
        Some(v) => v,
        None => return Err(Error::MathOverflow),
    };
    if accounted > grant.total_amount {
        return Err(Error::InvalidState);
    }
    let remaining = match grant.total_amount.checked_sub(accounted) {
        Some(v) => v,
        None => return Err(Error::MathOverflow),
    };
    let delta = if accrued > remaining {
        remaining
    } else {
        accrued
    };
    let claimable = match grant.claimable.checked_add(delta) {
        Some(v) => v,
        None => return Err(Error::MathOverflow),
    };
    let new_accounted = match grant.withdrawn.checked_add(claimable) {
        Some(v) => v,
        None => return Err(Error::MathOverflow),
    };
    grant.last_update_ts = now;
    grant.claimable = claimable;
    if new_accounted == grant.total_amount {
        grant.status_mask = set_status(grant.status_mask, STATUS_COMPLETED);
        grant.status_mask = clear_status(grant.status_mask, STATUS_ACTIVE);
    }
    Ok(())
}

/// What is left claimable after `amount` is withdrawn out of `claimable`:
/// a withdrawal is paid from the claimable amount first, and what goes beyond
/// it is drawn ahead from the part of the total not accrued yet.
pub open spec fn claimable_after(claimable: int, amount: int) -> int {
    if amount <= claimable {
        claimable - amount
    } else {
        0
    }
}

/// Settling keeps a well-formed grant well-formed, and on a well-formed
/// grant it can only fail for a time before the last update or an accrual
/// `flow_rate * elapsed` beyond `i128`. When it succeeds on an accruing grant,
/// the claimable amount grows by exactly the accrual capped at what was left.
pub proof fn lemma_settle_well_formed(g: Grant, now: u64)
    requires
        grant_wf(g),
    ensures
        settle_outcome(g, now) is Ok ==> grant_wf(settle_outcome(g, now)->Ok_0),
        settle_outcome(g, now) is Err ==> (now < g.last_update_ts || !fits_i128(
            g.flow_rate * (now - g.last_update_ts),
        )),
        settle_outcome(g, now) is Ok ==> {
            let h = settle_outcome(g, now)->Ok_0;
            &&& h.withdrawn == g.withdrawn
            &&& h.total_amount == g.total_amount
            &&& h.flow_rate == g.flow_rate
            &&& h.recipient == g.recipient
            &&& h.last_update_ts == now
            &&& h.claimable == g.claimable + (if flag_set(g.status_mask, STATUS_ACTIVE) {
                min_int(g.flow_rate * (now - g.last_update_ts), unaccounted(g))
            } else {
                0
            })
        },
{
    if now >= g.last_update_ts && flag_set(g.status_mask, STATUS_ACTIVE) {
        let elapsed = now - g.last_update_ts;
        if elapsed == 0 || g.flow_rate == 0 {
            assert(g.flow_rate * elapsed == 0) by (nonlinear_arith)
                requires
                    elapsed == 0 || g.flow_rate == 0,
            ;
        } else {
            assert(g.flow_rate * elapsed >= 0) by (nonlinear_arith)
                requires
                    elapsed >= 0,
                    g.flow_rate >= 0,
            ;
        }
    }
}

/// Accrual does not depend on how often a grant is brought up to date:
/// settling a well-formed grant at `t1` and then at `t2` gives the same grant
/// as settling it once at `t2`, whenever the latter succeeds.
pub proof fn law_settle_in_steps(g: Grant, t1: u64, t2: u64)
    requires
        grant_wf(g),
        g.last_update_ts <= t1 <= t2,
        settle_outcome(g, t2) is Ok,
    ensures
        settle_outcome(g, t1) is Ok,
        settle_outcome(settle_outcome(g, t1)->Ok_0, t2) == settle_outcome(g, t2),
{
    let t0 = g.last_update_ts;
    let r = g.flow_rate;
    let e1: int = t1 - t0;
    let e2: int = t2 - t1;
    let e: int = t2 - t0;
    if flag_set(g.status_mask, STATUS_ACTIVE) && r > 0 && e1 > 0 {
        assert(r * e1 <= r * e && r * e2 <= r * e && r * e1 + r * e2 == r * e && 0 <= r * e1
            && 0 <= r * e2) by (nonlinear_arith)
            requires
                r > 0,
                e1 > 0,
                e2 >= 0,
                e == e1 + e2,
        ;
        let m = g.status_mask;
        assert(((m | 0x4u32) & !0x1u32) & 0x1u32 == 0) by (bit_vector);
        assert(!flag_set(completed_mask(m), STATUS_ACTIVE));
    }
}

} // verus!
