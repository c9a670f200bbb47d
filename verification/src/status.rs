use vstd::prelude::*;
use crate::error::Error;

verus! {

/// The grant is streaming.
pub const STATUS_ACTIVE: u32 = 0x1;
/// The grant is paused: nothing accrues.
pub const STATUS_PAUSED: u32 = 0x2;
/// Everything the grant holds has been accounted for.
pub const STATUS_COMPLETED: u32 = 0x4;
/// The grant was cancelled by the administrator.
pub const STATUS_CANCELLED: u32 = 0x8;
/// The grant may be revoked.
pub const STATUS_REVOCABLE: u32 = 0x10;
/// The grant releases funds by milestones.
pub const STATUS_MILESTONE_BASED: u32 = 0x20;
/// The grant renews itself.
pub const STATUS_AUTO_RENEW: u32 = 0x40;
/// The grant is paused by an emergency.
pub const STATUS_EMERGENCY_PAUSE: u32 = 0x80;
/// The grantee ended the grant.
pub const STATUS_SELF_TERMINATED: u32 = 0x100;

/// Whether some bit of `flag` is set in `mask`.
pub open spec fn flag_set(mask: u32, flag: u32) -> bool {
    mask & flag != 0
}

/// Returns whether any bit of `flag` is set in `status_mask`.
pub fn has_status(status_mask: u32, flag: u32) -> (r: bool)
    ensures
        r == flag_set(status_mask, flag),
{
    (status_mask & flag) != 0
}

/// Returns `status_mask` with every bit of `flag` set.
pub fn set_status(status_mask: u32, flag: u32) -> (r: u32)
    ensures
        r == status_mask | flag,
{
    status_mask | flag
}

/// Returns `status_mask` with every bit of `flag` cleared.
pub fn clear_status(status_mask: u32, flag: u32) -> (r: u32)
    ensures
        r == status_mask & !flag,
{
    status_mask & !flag
}

/// Returns `status_mask` with every bit of `flag` flipped.
pub fn toggle_status(status_mask: u32, flag: u32) -> (r: u32)
    ensures
        r == status_mask ^ flag,
{
    status_mask ^ flag
}

/// The status changes that the grant state machine accepts.
///
/// Nothing leaves a completed or cancelled grant. Otherwise a change is
/// accepted when it cancels the grant; pauses an active grant; resumes a
/// paused grant (leaving it active and not paused); completes an active or
/// paused grant (leaving it neither); or, from the empty mask, creates a grant
/// that is active and neither paused, completed nor cancelled.
pub open spec fn transition_allowed(current: u32, new: u32) -> bool {
    &&& !flag_set(current, STATUS_COMPLETED)
    &&& !flag_set(current, STATUS_CANCELLED)
    &&& {
        ||| flag_set(new, STATUS_CANCELLED)
        ||| (flag_set(current, STATUS_ACTIVE) && flag_set(new, STATUS_PAUSED))
        ||| (flag_set(current, STATUS_PAUSED) && flag_set(new, STATUS_ACTIVE) && !flag_set(
            new,
            STATUS_PAUSED,
        ))
        ||| ((flag_set(current, STATUS_ACTIVE) || flag_set(current, STATUS_PAUSED))
            && flag_set(new, STATUS_COMPLETED) && !flag_set(new, STATUS_ACTIVE) && !flag_set(
            new,
            STATUS_PAUSED,
        ))
        ||| (current == 0 && flag_set(new, STATUS_ACTIVE) && !flag_set(new, STATUS_PAUSED)
            && !flag_set(new, STATUS_COMPLETED) && !flag_set(new, STATUS_CANCELLED))
    }
}

/// Checks a status change against the grant state machine.
pub fn validate_status_transition(current_mask: u32, new_mask: u32) -> (r: Result<(), Error>)
    ensures
        r is Ok <==> transition_allowed(current_mask, new_mask),
        r is Err ==> r == Err::<(), Error>(Error::InvalidStatusTransition),
{
    if has_status(current_mask, STATUS_COMPLETED) || has_status(current_mask, STATUS_CANCELLED) {
        return Err(Error::InvalidStatusTransition);
    }
    if has_status(new_mask, STATUS_CANCELLED) {
        return Ok(());
    }
    if has_status(current_mask, STATUS_ACTIVE) && has_status(new_mask, STATUS_PAUSED) {
        return Ok(());
    }
    if has_status(current_mask, STATUS_PAUSED) && has_status(new_mask, STATUS_ACTIVE)
        && !has_status(new_mask, STATUS_PAUSED) {
        return Ok(());
    }
    if (has_status(current_mask, STATUS_ACTIVE) || has_status(current_mask, STATUS_PAUSED))
        && has_status(new_mask, STATUS_COMPLETED) && !has_status(new_mask, STATUS_ACTIVE)
        && !has_status(new_mask, STATUS_PAUSED) {
        return Ok(());
    }
    if current_mask == 0 && has_status(new_mask, STATUS_ACTIVE) && !has_status(
        new_mask,
        STATUS_PAUSED,
    ) && !has_status(new_mask, STATUS_COMPLETED) && !has_status(new_mask, STATUS_CANCELLED) {
        return Ok(());
    }
    Err(Error::InvalidStatusTransition)
}

/// Whether a grant with status `mask` may be ended by its grantee: it is
/// active or paused, and neither completed, cancelled nor already ended.
pub open spec fn self_termination_allowed(mask: u32) -> bool {
    &&& (flag_set(mask, STATUS_ACTIVE) || flag_set(mask, STATUS_PAUSED))
    &&& !flag_set(mask, STATUS_COMPLETED)
    &&& !flag_set(mask, STATUS_CANCELLED)
    &&& !flag_set(mask, STATUS_SELF_TERMINATED)
}

/// Checks a status change that would mark a grant as ended by its grantee:
/// such a change must start from a mask that allows self-termination.
/// Changes that do not set the self-terminated flag pass.
pub fn validate_self_terminate_transition(current_mask: u32, new_mask: u32) -> (r: Result<
    (),
    Error,
>)
    ensures
        r is Ok <==> (flag_set(new_mask, STATUS_SELF_TERMINATED) ==> self_termination_allowed(
            current_mask,
        )),
        r is Err ==> r == Err::<(), Error>(Error::InvalidStatusTransition),
{
    if has_status(new_mask, STATUS_SELF_TERMINATED) {
        if !has_status(current_mask, STATUS_ACTIVE) && !has_status(current_mask, STATUS_PAUSED) {
            return Err(Error::InvalidStatusTransition);
        }
        if has_status(current_mask, STATUS_COMPLETED) || has_status(current_mask, STATUS_CANCELLED)
            || has_status(current_mask, STATUS_SELF_TERMINATED) {
            return Err(Error::InvalidStatusTransition);
        }
    }
    Ok(())
}

/// Returns whether the grantee ended the grant with status `status_mask`.
pub fn is_self_terminated(status_mask: u32) -> (r: bool)
    ensures
        r == flag_set(status_mask, STATUS_SELF_TERMINATED),
{
    has_status(status_mask, STATUS_SELF_TERMINATED)
}

/// Returns whether a grant with status `status_mask` may be ended by its grantee.
pub fn can_be_self_terminated(status_mask: u32) -> (r: bool)
    ensures
        r == self_termination_allowed(status_mask),
{
    (has_status(status_mask, STATUS_ACTIVE) || has_status(status_mask, STATUS_PAUSED))
        && !has_status(status_mask, STATUS_COMPLETED) && !has_status(
        status_mask,
        STATUS_CANCELLED,
    ) && !has_status(status_mask, STATUS_SELF_TERMINATED)
}

/// Setting a non-empty flag makes it observable.
pub proof fn lemma_set_then_has(mask: u32, flag: u32)
    requires
        flag != 0,
    ensures
        flag_set(mask | flag, flag),
{
    assert((mask | flag) & flag == flag) by (bit_vector);
}

/// Clearing a flag makes it unobservable.
pub proof fn lemma_clear_then_not_has(mask: u32, flag: u32)
    ensures
        !flag_set(mask & !flag, flag),
{
    assert((mask & !flag) & flag == 0) by (bit_vector);
}

/// Toggling a flag twice gives the mask back.
pub proof fn lemma_toggle_twice(mask: u32, flag: u32)
    ensures
        (mask ^ flag) ^ flag == mask,
{
    assert((mask ^ flag) ^ flag == mask) by (bit_vector);
}

/// Setting, clearing or toggling one flag leaves every flag with no bit in
/// common with it as it was.
pub proof fn lemma_other_flags_unchanged(mask: u32, flag: u32, other: u32)
    requires
        flag & other == 0,
    ensures
        flag_set(mask | flag, other) == flag_set(mask, other),
        flag_set(mask & !flag, other) == flag_set(mask, other),
        flag_set(mask ^ flag, other) == flag_set(mask, other),
{
    assert((mask | flag) & other == mask & other) by (bit_vector)
        requires
            flag & other == 0,
    ;
    assert((mask & !flag) & other == mask & other) by (bit_vector)
        requires
            flag & other == 0,
    ;
    assert((mask ^ flag) & other == mask & other) by (bit_vector)
        requires
            flag & other == 0,
    ;
}

/// The nine status flags are single bits, pairwise distinct, so each can be
/// read independently of the others.
pub proof fn lemma_status_flags_distinct()
    ensures
        STATUS_ACTIVE & STATUS_PAUSED == 0,
        STATUS_ACTIVE & STATUS_COMPLETED == 0,
        STATUS_ACTIVE & STATUS_CANCELLED == 0,
        STATUS_PAUSED & STATUS_COMPLETED == 0,
        STATUS_PAUSED & STATUS_CANCELLED == 0,
        STATUS_COMPLETED & STATUS_CANCELLED == 0,
        (STATUS_ACTIVE | STATUS_PAUSED | STATUS_COMPLETED | STATUS_CANCELLED) & (STATUS_REVOCABLE
            | STATUS_MILESTONE_BASED | STATUS_AUTO_RENEW | STATUS_EMERGENCY_PAUSE
            | STATUS_SELF_TERMINATED) == 0,
        STATUS_REVOCABLE & STATUS_MILESTONE_BASED == 0,
        STATUS_REVOCABLE & STATUS_AUTO_RENEW == 0,
        STATUS_REVOCABLE & STATUS_EMERGENCY_PAUSE == 0,
        STATUS_MILESTONE_BASED & STATUS_AUTO_RENEW == 0,
        STATUS_MILESTONE_BASED & STATUS_EMERGENCY_PAUSE == 0,
        STATUS_AUTO_RENEW & STATUS_EMERGENCY_PAUSE == 0,
        STATUS_SELF_TERMINATED & (STATUS_REVOCABLE | STATUS_MILESTONE_BASED | STATUS_AUTO_RENEW
            | STATUS_EMERGENCY_PAUSE) == 0,
{
    assert(0x1u32 & 0x2u32 == 0 && 0x1u32 & 0x4u32 == 0 && 0x1u32 & 0x8u32 == 0 && 0x2u32 & 0x4u32
        == 0 && 0x2u32 & 0x8u32 == 0 && 0x4u32 & 0x8u32 == 0 && (0x1u32 | 0x2u32 | 0x4u32 | 0x8u32)
        & (0x10u32 | 0x20u32 | 0x40u32 | 0x80u32 | 0x100u32) == 0 && 0x10u32 & 0x20u32 == 0
        && 0x10u32 & 0x40u32 == 0 && 0x10u32 & 0x80u32 == 0 && 0x20u32 & 0x40u32 == 0 && 0x20u32
        & 0x80u32 == 0 && 0x40u32 & 0x80u32 == 0 && 0x100u32 & (0x10u32 | 0x20u32 | 0x40u32
        | 0x80u32) == 0) by (bit_vector);
}

/// The grant state machine: nothing leaves a completed or cancelled grant;
/// from any other status, cancelling is allowed, an active grant may be
/// paused, a paused grant may be resumed (active, no longer paused), an
/// active or paused grant may be completed (neither active nor paused), and
/// a new grant starts active and neither paused, completed nor cancelled. A
/// paused grant with nothing else to change cannot be made active while
/// staying paused, and an active grant cannot be completed while staying
/// active.
pub proof fn law_status_rules(current: u32, new: u32)
    ensures
        flag_set(current, STATUS_COMPLETED) || flag_set(current, STATUS_CANCELLED) ==> !transition_allowed(
            current,
            new,
        ),
        !flag_set(current, STATUS_COMPLETED) && !flag_set(current, STATUS_CANCELLED) ==> {
            &&& flag_set(new, STATUS_CANCELLED) ==> transition_allowed(current, new)
            &&& flag_set(current, STATUS_ACTIVE) && flag_set(new, STATUS_PAUSED) ==> transition_allowed(
                current,
                new,
            )
            &&& flag_set(current, STATUS_PAUSED) && flag_set(new, STATUS_ACTIVE) && !flag_set(
                new,
                STATUS_PAUSED,
            ) ==> transition_allowed(current, new)
            &&& (flag_set(current, STATUS_ACTIVE) || flag_set(current, STATUS_PAUSED)) && flag_set(
                new,
                STATUS_COMPLETED,
            ) && !flag_set(new, STATUS_ACTIVE) && !flag_set(new, STATUS_PAUSED) ==> transition_allowed(
                current,
                new,
            )
        },
        current == 0 && flag_set(new, STATUS_ACTIVE) && !flag_set(new, STATUS_PAUSED) && !flag_set(
            new,
            STATUS_COMPLETED,
        ) && !flag_set(new, STATUS_CANCELLED) ==> transition_allowed(current, new),
        current == STATUS_PAUSED && new == STATUS_ACTIVE | STATUS_PAUSED ==> !transition_allowed(
            current,
            new,
        ),
        current == STATUS_ACTIVE && new == STATUS_ACTIVE | STATUS_COMPLETED ==> !transition_allowed(
            current,
            new,
        ),
{
    assert(0x2u32 & 0x4u32 == 0 && 0x2u32 & 0x8u32 == 0 && 0x2u32 & 0x1u32 == 0 && (0x1u32
        | 0x2u32) & 0x8u32 == 0 && (0x1u32 | 0x2u32) & 0x2u32 != 0 && (0x1u32 | 0x2u32) & 0x4u32 == 0
        && 0x1u32 & 0x2u32 == 0 && 0x1u32 & 0x4u32 == 0 && 0x1u32 & 0x8u32 == 0 && (0x1u32
        | 0x4u32) & 0x1u32 != 0 && (0x1u32 | 0x4u32) & 0x8u32 == 0 && (0x1u32 | 0x4u32) & 0x2u32 == 0
        && 0u32 & 0x4u32 == 0 && 0u32 & 0x8u32 == 0) by (bit_vector);
}

/// A paused grant may be completed: the change from paused to completed is
/// accepted.
pub proof fn law_paused_grant_may_complete()
    ensures
        transition_allowed(STATUS_PAUSED, STATUS_COMPLETED),
{
    assert(0x2u32 & 0x4u32 == 0 && 0x2u32 & 0x8u32 == 0 && 0x2u32 & 0x2u32 != 0 && 0x4u32 & 0x4u32
        != 0 && 0x4u32 & 0x1u32 == 0 && 0x4u32 & 0x2u32 == 0) by (bit_vector);
}

} // verus!
