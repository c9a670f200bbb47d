use vstd::prelude::*;
use crate::address::Address;
use crate::error::{ContractError, Error, MultiTokenError, grant_result};
use crate::grant::{fits_i128, min_int, completed_mask};
use crate::contract::{GrantContract, GrantContractView, Invocation};
use crate::status::{
    flag_set, has_status, set_status, clear_status, transition_allowed, validate_status_transition,
    STATUS_ACTIVE, STATUS_PAUSED, STATUS_COMPLETED,
};

verus! {

/// One token stream of a multi-token grant.
#[derive(Clone, Copy, Debug, PartialEq, Eq)]
pub struct TokenBalance {
    pub token_address: Address,
    pub total_amount: i128,
    pub withdrawn: i128,
    pub claimable: i128,
    pub flow_rate: i128,
}

/// A grant that streams several tokens to one recipient at once.
#[derive(Debug)]
pub struct MultiTokenGrant {
    pub recipient: Address,
    pub tokens: Vec<TokenBalance>,
    pub last_update_ts: u64,
    pub rate_updated_at: u64,
    pub status_mask: u32,
}

/// A multi-token grant as mathematical values.
pub struct MultiTokenGrantView {
    pub recipient: Address,
    pub tokens: Seq<TokenBalance>,
    pub last_update_ts: u64,
    pub rate_updated_at: u64,
    pub status_mask: u32,
}

impl View for MultiTokenGrant {
    type V = MultiTokenGrantView;

    open spec fn view(&self) -> MultiTokenGrantView {
        MultiTokenGrantView {
            recipient: self.recipient,
            tokens: self.tokens@,
            last_update_ts: self.last_update_ts,
            rate_updated_at: self.rate_updated_at,
            status_mask: self.status_mask,
        }
    }
}

/// A request to withdraw `amount` of the token at `token_address`.
#[derive(Clone, Copy, Debug, PartialEq, Eq)]
pub struct TokenWithdrawal {
    pub token_address: Address,
    pub amount: i128,
}

/// Amounts recorded per token; recording a token again replaces its amount.
#[derive(Debug)]
pub struct AmountMap {
    entries: Vec<(Address, i128)>,
}

/// The map that a sequence of recordings leaves, later ones replacing
/// earlier ones of the same token.
pub open spec fn recorded_amounts(entries: Seq<(Address, i128)>) -> Map<Address, i128>
    decreases entries.len(),
{
    if entries.len() == 0 {
        Map::empty()
    } else {
        recorded_amounts(entries.drop_last()).insert(entries.last().0, entries.last().1)
    }
}

impl View for AmountMap {
    type V = Map<Address, i128>;

    closed spec fn view(&self) -> Map<Address, i128> {
        recorded_amounts(self.entries@)
    }
}

impl AmountMap {
    /// A map that records nothing.
    pub fn new() -> (m: AmountMap)
        ensures
            m@ == Map::<Address, i128>::empty(),
    {
        AmountMap { entries: Vec::new() }
    }

    /// Records `amount` for `token`, replacing what was recorded for it.
    pub fn set(&mut self, token: Address, amount: i128)
        ensures
            final(self)@ == old(self)@.insert(token, amount),
    {
        let ghost before = self.entries@;
        self.entries.push((token, amount));
        assert(self.entries@.drop_last() =~= before);
    }

    /// The amount recorded for `token`, if any.
    pub fn get(&self, token: Address) -> (r: Option<i128>)
        ensures
            r == (if self@.contains_key(token) {
                Some(self@[token])
            } else {
                None
            }),
    {
        let mut found: Option<i128> = None;
        let mut i: usize = 0;
        while i < self.entries.len()
            invariant
                0 <= i <= self.entries@.len(),
                found == (if recorded_amounts(self.entries@.take(i as int)).contains_key(token) {
                    Some(recorded_amounts(self.entries@.take(i as int))[token])
                } else {
                    None
                }),
            decreases self.entries@.len() - i,
        {
            assert(self.entries@.take(i + 1).drop_last() =~= self.entries@.take(i as int));
            let (a, v) = self.entries[i];
            if a.same_as(&token) {
                found = Some(v);
            }
            i = i + 1;
        }
        assert(self.entries@.take(i as int) =~= self.entries@);
        found
    }
}

/// What a multi-token withdrawal did: the requests that succeeded and those
/// that failed, each in request order, the amount withdrawn per token, and when.
#[derive(Debug)]
pub struct MultiTokenWithdrawResult {
    pub grant_id: u64,
    pub successful_withdrawals: Vec<TokenWithdrawal>,
    pub failed_withdrawals: Vec<TokenWithdrawal>,
    pub total_withdrawn: AmountMap,
    pub withdrawn_at: u64,
}

/// What every stored multi-token grant keeps: no rate is negative and no two
/// streams are of the same token.
pub open spec fn multi_grant_wf(g: MultiTokenGrantView) -> bool {
    &&& forall|i: int| 0 <= i < g.tokens.len() ==> #[trigger] g.tokens[i].flow_rate >= 0
    &&& tokens_distinct(g.tokens)
}

/// No two streams of `tokens` are of the same token.
pub open spec fn tokens_distinct(tokens: Seq<TokenBalance>) -> bool {
    forall|i: int, j: int|
        0 <= i < j < tokens.len() ==> #[trigger] tokens[i].token_address
            != #[trigger] tokens[j].token_address
}

/// Whether some stream of `tokens` is of the token at `addr`.
pub open spec fn has_token(tokens: Seq<TokenBalance>, addr: Address) -> bool {
    exists|i: int| 0 <= i < tokens.len() && #[trigger] tokens[i].token_address == addr
}

/// The position of the stream of the token at `addr` (meaningful when
/// [`has_token`] holds and the streams are distinct).
pub open spec fn token_index(tokens: Seq<TokenBalance>, addr: Address) -> int {
    choose|i: int| 0 <= i < tokens.len() && #[trigger] tokens[i].token_address == addr
}

/// Why a stream offered for a new multi-token grant is refused, if it is: a
/// total that is not positive, a negative rate, a negative withdrawn or
/// claimable amount, or more withdrawn than the total.
pub open spec fn token_problem(t: TokenBalance) -> Option<Error> {
    if t.total_amount <= 0 {
        Some(Error::InvalidAmount)
    } else if t.flow_rate < 0 {
        Some(Error::InvalidRate)
    } else if t.withdrawn < 0 || t.claimable < 0 {
        Some(Error::InvalidAmount)
    } else if t.withdrawn > t.total_amount {
        Some(Error::InvalidState)
    } else {
        None
    }
}

/// The problem of the first refused stream of `tokens`, if any.
pub open spec fn first_token_problem(tokens: Seq<TokenBalance>) -> Option<Error>
    decreases tokens.len(),
{
    if tokens.len() == 0 {
        None
    } else {
        match first_token_problem(tokens.drop_last()) {
            Some(e) => Some(e),
            None => token_problem(tokens.last()),
        }
    }
}

/// Once some prefix of `tokens` holds a refused stream, the first refused
/// stream of the whole sequence is the one of that prefix.
proof fn lemma_first_problem_prefix(tokens: Seq<TokenBalance>, k: int)
    requires
        0 <= k <= tokens.len(),
        first_token_problem(tokens.take(k)) is Some,
    ensures
        first_token_problem(tokens) == first_token_problem(tokens.take(k)),
    decreases tokens.len(),
{
    if k < tokens.len() {
        assert(tokens.drop_last().take(k) =~= tokens.take(k));
        lemma_first_problem_prefix(tokens.drop_last(), k);
    } else {
        assert(tokens.take(k) =~= tokens);
    }
}

/// Distinct streams at two positions are of different tokens.
proof fn lemma_distinct_at(tokens: Seq<TokenBalance>, i: int, j: int)
    requires
        tokens_distinct(tokens),
        0 <= i < j < tokens.len(),
    ensures
        tokens[i].token_address != tokens[j].token_address,
{
    assert(tokens[i].token_address != tokens[j].token_address);
}

/// Checks every stream of `tokens` in order (see [`token_problem`]).
fn validate_token_balances(tokens: &Vec<TokenBalance>) -> (r: Result<(), Error>)
    ensures
        match first_token_problem(tokens@) {
            Some(e) => r == Err::<(), Error>(e),
            None => r is Ok,
        },
{
    let mut i: usize = 0;
    while i < tokens.len()
        invariant
            0 <= i <= tokens@.len(),
            first_token_problem(tokens@.take(i as int)) is None,
        decreases tokens@.len() - i,
    {
        assert(tokens@.take(i + 1).drop_last() =~= tokens@.take(i as int));
        let token = tokens[i];
        proof {
            if token_problem(token) is Some {
                lemma_first_problem_prefix(tokens@, i + 1);
            }
        }
        if token.total_amount <= 0 {
            return Err(Error::InvalidAmount);
        }
        if token.flow_rate < 0 {
            return Err(Error::InvalidRate);
        }
        if token.withdrawn < 0 || token.claimable < 0 {
            return Err(Error::InvalidAmount);
        }
        if token.withdrawn > token.total_amount {
            return Err(Error::InvalidState);
        }
        i = i + 1;
    }
    assert(tokens@.take(i as int) =~= tokens@);
    Ok(())
}

/// Refuses `tokens` with `DuplicateToken` when two streams are of the same
/// token.
fn check_duplicate_tokens(tokens: &Vec<TokenBalance>) -> (r: Result<(), MultiTokenError>)
    ensures
        tokens_distinct(tokens@) ==> (r is Ok),
        !tokens_distinct(tokens@) ==> r == Err::<(), MultiTokenError>(MultiTokenError::DuplicateToken),
{
    let mut j: usize = 0;
    while j < tokens.len()
        invariant
            0 <= j <= tokens@.len(),
            tokens_distinct(tokens@.take(j as int)),
        decreases tokens@.len() - j,
    {
        let mut i: usize = 0;
        while i < j
            invariant
                0 <= i <= j < tokens@.len(),
                tokens_distinct(tokens@.take(j as int)),
                forall|k: int| 0 <= k < i ==> tokens@[k].token_address != tokens@[j as int].token_address,
            decreases j - i,
        {
            if tokens[i].token_address.same_as(&tokens[j].token_address) {
                return Err(MultiTokenError::DuplicateToken);
            }
            i = i + 1;
        }
        assert forall|a: int, b: int| 0 <= a < b < tokens@.take(j + 1).len() implies #[trigger] tokens@.take(j + 1)[a].token_address
            != #[trigger] tokens@.take(j + 1)[b].token_address by {
            if b < j {
                assert(tokens@.take(j as int)[a] == tokens@[a]);
                assert(tokens@.take(j as int)[b] == tokens@[b]);
            }
        }
        j = j + 1;
    }
    assert(tokens@.take(j as int) =~= tokens@);
    Ok(())
}

/// Finds the stream of the token at `addr` in distinct streams.
fn find_token(tokens: &Vec<TokenBalance>, addr: &Address) -> (r: Option<usize>)
    requires
        tokens_distinct(tokens@),
    ensures
        match r {
            Some(i) => has_token(tokens@, *addr) && i == token_index(tokens@, *addr) && i < tokens@.len(),
            None => !has_token(tokens@, *addr),
        },
{
    let mut i: usize = 0;
    while i < tokens.len()
        invariant
            0 <= i <= tokens@.len(),
            forall|k: int| 0 <= k < i ==> tokens@[k].token_address != *addr,
            tokens_distinct(tokens@),
        decreases tokens@.len() - i,
    {
        if tokens[i].token_address.same_as(addr) {
            assert(tokens@[i as int].token_address == *addr);
            let ghost c = token_index(tokens@, *addr);
            assert(tokens@[c].token_address == *addr);
            assert(c == i) by {
                if c < i {
                } else if c > i {
                    lemma_distinct_at(tokens@, i as int, c);
                }
            }
            return Some(i);
        }
        i = i + 1;
    }
    None
}

/// A copy of `tokens`.
fn copy_tokens(tokens: &Vec<TokenBalance>) -> (r: Vec<TokenBalance>)
    ensures
        r@ == tokens@,
{
    let mut out: Vec<TokenBalance> = Vec::new();
    let mut i: usize = 0;
    while i < tokens.len()
        invariant
            0 <= i <= tokens@.len(),
            out@ == tokens@.take(i as int),
        decreases tokens@.len() - i,
    {
        out.push(tokens[i]);
        assert(out@ =~= tokens@.take(i + 1));
        i = i + 1;
    }
    assert(tokens@.take(i as int) =~= tokens@);
    out
}

impl MultiTokenGrant {
    /// Whether the grant keeps what every stored multi-token grant keeps
    /// (see [`multi_grant_wf`]).
    pub fn is_well_formed(&self) -> (r: bool)
        ensures
            r == multi_grant_wf(self@),
    {
        let mut i: usize = 0;
        while i < self.tokens.len()
            invariant
                0 <= i <= self.tokens@.len(),
                forall|k: int| 0 <= k < i ==> #[trigger] self.tokens@[k].flow_rate >= 0,
            decreases self.tokens@.len() - i,
        {
            if self.tokens[i].flow_rate < 0 {
                return false;
            }
            i = i + 1;
        }
        check_duplicate_tokens(&self.tokens).is_ok()
    }

    /// A copy of the grant.
    pub fn duplicate(&self) -> (r: MultiTokenGrant)
        ensures
            r@ == self@,
    {
        MultiTokenGrant {
            recipient: self.recipient,
            tokens: copy_tokens(&self.tokens),
            last_update_ts: self.last_update_ts,
            rate_updated_at: self.rate_updated_at,
            status_mask: self.status_mask,
        }
    }
}

/// A stream of `total_amount` of the token at `token_address` at `flow_rate`
/// per second, with nothing withdrawn or claimable yet.
pub fn create_token_balance(token_address: Address, total_amount: i128, flow_rate: i128) -> (t:
    TokenBalance)
    ensures
        t == (TokenBalance { token_address, total_amount, withdrawn: 0, claimable: 0, flow_rate }),
{
    TokenBalance { token_address, total_amount, withdrawn: 0, claimable: 0, flow_rate }
}

/// A request to withdraw `amount` of the token at `token_address`.
pub fn create_token_withdrawal(token_address: Address, amount: i128) -> (w: TokenWithdrawal)
    ensures
        w == (TokenWithdrawal { token_address, amount }),
{
    TokenWithdrawal { token_address, amount }
}


/// One stream brought forward by `elapsed` seconds: a stream with a non-zero
/// rate gains `flow_rate * elapsed`, capped at what is left of its total.
pub open spec fn settle_token_outcome(t: TokenBalance, elapsed: int) -> Result<TokenBalance, Error> {
    if t.flow_rate == 0 {
        Ok(t)
    } else {
        let accrued = t.flow_rate * elapsed;
        let accounted = t.withdrawn + t.claimable;
        if !fits_i128(accrued) || !fits_i128(accounted) {
            Err(Error::MathOverflow)
        } else if accounted > t.total_amount {
            Err(Error::InvalidState)
        } else if !fits_i128(t.total_amount - accounted) {
            Err(Error::MathOverflow)
        } else {
            let claimable = t.claimable + min_int(accrued, t.total_amount - accounted);
            if !fits_i128(claimable) {
                Err(Error::MathOverflow)
            } else {
                Ok(TokenBalance { claimable: claimable as i128, ..t })
            }
        }
    }
}

/// Every stream of `tokens` brought forward by `elapsed` seconds, or the
/// failure of the first stream that cannot be.
pub open spec fn settle_tokens(tokens: Seq<TokenBalance>, elapsed: int) -> Result<
    Seq<TokenBalance>,
    Error,
>
    decreases tokens.len(),
{
    if tokens.len() == 0 {
        Ok(Seq::empty())
    } else {
        match settle_tokens(tokens.drop_last(), elapsed) {
            Err(e) => Err(e),
            Ok(p) => match settle_token_outcome(tokens.last(), elapsed) {
                Err(e) => Err(e),
                Ok(t) => Ok(p.push(t)),
            },
        }
    }
}

/// The multi-token grant brought up to time `now`: an active grant settles
/// every stream; any other grant only has its update time moved.
pub open spec fn settle_multi_outcome(g: MultiTokenGrantView, now: u64) -> Result<
    MultiTokenGrantView,
    Error,
> {
    if now < g.last_update_ts {
        Err(Error::InvalidState)
    } else {
        let moved = MultiTokenGrantView { last_update_ts: now, ..g };
        if !flag_set(g.status_mask, STATUS_ACTIVE) || now - g.last_update_ts == 0 {
            Ok(moved)
        } else {
            match settle_tokens(g.tokens, now - g.last_update_ts) {
                Err(e) => Err(e),
                Ok(ts) => Ok(MultiTokenGrantView { tokens: ts, ..moved }),
            }
        }
    }
}

/// Settling streams keeps their number, order, tokens, totals, withdrawn
/// amounts and rates.
proof fn lemma_settle_tokens_shape(tokens: Seq<TokenBalance>, elapsed: int)
    requires
        settle_tokens(tokens, elapsed) is Ok,
    ensures
        ({
            let ts = settle_tokens(tokens, elapsed)->Ok_0;
            &&& ts.len() == tokens.len()
            &&& forall|i: int|
                0 <= i < tokens.len() ==> (#[trigger] ts[i]).token_address
                    == tokens[i].token_address && ts[i].flow_rate == tokens[i].flow_rate
                    && ts[i].total_amount == tokens[i].total_amount && ts[i].withdrawn
                    == tokens[i].withdrawn
        }),
    decreases tokens.len(),
{
    if tokens.len() > 0 {
        lemma_settle_tokens_shape(tokens.drop_last(), elapsed);
    }
}

/// Once some prefix of `tokens` fails to settle, the whole sequence fails
/// with the same error.
proof fn lemma_settle_tokens_prefix(tokens: Seq<TokenBalance>, elapsed: int, k: int)
    requires
        0 <= k <= tokens.len(),
        settle_tokens(tokens.take(k), elapsed) is Err,
    ensures
        settle_tokens(tokens, elapsed) == settle_tokens(tokens.take(k), elapsed),
    decreases tokens.len(),
{
    if k < tokens.len() {
        assert(tokens.drop_last().take(k) =~= tokens.take(k));
        lemma_settle_tokens_prefix(tokens.drop_last(), elapsed, k);
    } else {
        assert(tokens.take(k) =~= tokens);
    }
}

/// Brings `grant` up to time `now` (see [`settle_multi_outcome`]).
fn settle_multi_token_grant(grant: &MultiTokenGrant, now: u64) -> (r: Result<
    MultiTokenGrant,
    Error,
>)
    ensures
        match settle_multi_outcome(grant@, now) {
            Ok(g) => r is Ok && r->Ok_0@ == g,
            Err(e) => r is Err && r->Err_0 == e,
        },
{
    if now < grant.last_update_ts {
        return Err(Error::InvalidState);
    }
    let elapsed = now - grant.last_update_ts;
    if !has_status(grant.status_mask, STATUS_ACTIVE) || elapsed == 0 {
        return Ok(
            MultiTokenGrant {
                recipient: grant.recipient,
                tokens: copy_tokens(&grant.tokens),
                last_update_ts: now,
                rate_updated_at: grant.rate_updated_at,
                status_mask: grant.status_mask,
            },
        );
    }
    let elapsed_i128 = elapsed as i128;
    let ghost tokens = grant.tokens@;
    let mut out: Vec<TokenBalance> = Vec::new();
    let mut i: usize = 0;
    while i < grant.tokens.len()
        invariant
            0 <= i <= tokens.len(),
            tokens == grant.tokens@,
            elapsed_i128 == elapsed,
            now >= grant.last_update_ts,
            elapsed == now - grant.last_update_ts,
            elapsed > 0,
            flag_set(grant.status_mask, STATUS_ACTIVE),
            settle_tokens(tokens.take(i as int), elapsed as int) == Ok::<Seq<TokenBalance>, Error>(
                out@,
            ),
        decreases tokens.len() - i,
    {
        assert(tokens.take(i + 1).drop_last() =~= tokens.take(i as int));
        let token = grant.tokens[i];
        if token.flow_rate == 0 {
            out.push(token);
        } else {
            let accrued = match token.flow_rate.checked_mul(elapsed_i128) {
                Some(v) => v,
                None => {
                    proof {
                        lemma_settle_tokens_prefix(tokens, elapsed as int, i + 1);
                    }
                    return Err(Error::MathOverflow);
                },
            };
            let accounted = match token.withdrawn.checked_add(token.claimable) {
                Some(v) => v,
                None => {
                    proof {
                        lemma_settle_tokens_prefix(tokens, elapsed as int, i + 1);
                    }
                    return Err(Error::MathOverflow);
                },
            };
            if accounted > token.total_amount {
                proof {
                    lemma_settle_tokens_prefix(tokens, elapsed as int, i + 1);
                }
                return Err(Error::InvalidState);
            }
            let remaining = match token.total_amount.checked_sub(accounted) {
                Some(v) => v,
                None => {
                    proof {
                        lemma_settle_tokens_prefix(tokens, elapsed as int, i + 1);
                    }
                    return Err(Error::MathOverflow);
                },
            };
            let delta = if accrued > remaining {
                remaining
            } else {
                accrued
            };
            let claimable = match token.claimable.checked_add(delta) {
                Some(v) => v,
                None => {
                    proof {
                        lemma_settle_tokens_prefix(tokens, elapsed as int, i + 1);
                    }
                    return Err(Error::MathOverflow);
                },
            };
            out.push(TokenBalance { claimable, ..token });
        }
        i = i + 1;
    }
    assert(tokens.take(i as int) =~= tokens);
    Ok(
        MultiTokenGrant {
            recipient: grant.recipient,
            tokens: out,
            last_update_ts: now,
            rate_updated_at: grant.rate_updated_at,
            status_mask: grant.status_mask,
        },
    )
}


/// One withdrawal request applied to the streams: the streams afterwards and
/// the amount withdrawn, or why the request failed.
///
/// A request fails for a non-positive amount, an unknown token, or more than
/// is claimable, and when the withdrawn amount would leave `i128`; a failed
/// request leaves the streams as they were.
pub open spec fn process_outcome(tokens: Seq<TokenBalance>, w: TokenWithdrawal) -> (
    Seq<TokenBalance>,
    Result<i128, Error>,
) {
    if w.amount <= 0 {
        (tokens, Err(Error::InvalidAmount))
    } else if !has_token(tokens, w.token_address) {
        (tokens, Err(Error::GrantNotFound))
    } else {
        let i = token_index(tokens, w.token_address);
        let t = tokens[i];
        if w.amount > t.claimable {
            (tokens, Err(Error::InvalidAmount))
        } else {
            let reduced = TokenBalance { claimable: (t.claimable - w.amount) as i128, ..t };
            if !fits_i128(t.withdrawn + w.amount) {
                (tokens, Err(Error::MathOverflow))
            } else {
                (
                    tokens.update(
                        i,
                        TokenBalance { withdrawn: (t.withdrawn + w.amount) as i128, ..reduced },
                    ),
                    Ok(w.amount),
                )
            }
        }
    }
}

/// The streams after a run of withdrawal requests, the requests that
/// succeeded and failed (each in request order), and the amount recorded per
/// token for the successful ones.
pub struct WithdrawalRun {
    pub tokens: Seq<TokenBalance>,
    pub successful: Seq<TokenWithdrawal>,
    pub failed: Seq<TokenWithdrawal>,
    pub amounts: Map<Address, i128>,
}

/// Applies the requests `ws` in order to `tokens` (see [`process_outcome`]).
pub open spec fn run_withdrawals(tokens: Seq<TokenBalance>, ws: Seq<TokenWithdrawal>) -> WithdrawalRun
    decreases ws.len(),
{
    if ws.len() == 0 {
        WithdrawalRun {
            tokens,
            successful: Seq::empty(),
            failed: Seq::empty(),
            amounts: Map::empty(),
        }
    } else {
        let r = run_withdrawals(tokens, ws.drop_last());
        let w = ws.last();
        let (ts, res) = process_outcome(r.tokens, w);
        match res {
            Ok(a) => WithdrawalRun {
                tokens: ts,
                successful: r.successful.push(w),
                amounts: r.amounts.insert(w.token_address, a),
                ..r
            },
            Err(_) => WithdrawalRun { tokens: ts, failed: r.failed.push(w), ..r },
        }
    }
}

/// Every request of a run either succeeds or fails, and the streams keep
/// their number, order, tokens, totals and rates.
pub proof fn lemma_run_withdrawals_shape(tokens: Seq<TokenBalance>, ws: Seq<TokenWithdrawal>)
    requires
        tokens_distinct(tokens),
    ensures
        ({
            let r = run_withdrawals(tokens, ws);
            &&& r.successful.len() + r.failed.len() == ws.len()
            &&& r.tokens.len() == tokens.len()
            &&& forall|i: int|
                0 <= i < tokens.len() ==> (#[trigger] r.tokens[i]).token_address
                    == tokens[i].token_address && r.tokens[i].flow_rate == tokens[i].flow_rate
                    && r.tokens[i].total_amount == tokens[i].total_amount
        }),
    decreases ws.len(),
{
    if ws.len() > 0 {
        lemma_run_withdrawals_shape(tokens, ws.drop_last());
    }
}

/// Withdrawal requests act on their own streams only: a stream that no
/// request names comes out of a run unchanged. Every stream keeps the sum of
/// its withdrawn and claimable amounts, some of it having moved from
/// claimable to withdrawn; a failed request changes nothing.
pub proof fn law_withdrawals_per_token(tokens: Seq<TokenBalance>, ws: Seq<TokenWithdrawal>, i: int)
    requires
        tokens_distinct(tokens),
        0 <= i < tokens.len(),
    ensures
        (forall|k: int| 0 <= k < ws.len() ==> #[trigger] ws[k].token_address
            != tokens[i].token_address) ==> run_withdrawals(tokens, ws).tokens[i] == tokens[i],
        ({
            let t = run_withdrawals(tokens, ws).tokens[i];
            &&& t.withdrawn + t.claimable == tokens[i].withdrawn + tokens[i].claimable
            &&& t.withdrawn >= tokens[i].withdrawn
        }),
    decreases ws.len(),
{
    if ws.len() > 0 {
        let prev = ws.drop_last();
        law_withdrawals_per_token(tokens, prev, i);
        lemma_run_withdrawals_shape(tokens, prev);
        let r = run_withdrawals(tokens, prev);
        let w = ws.last();
        assert(tokens_distinct(r.tokens)) by {
            assert forall|a: int, b: int| 0 <= a < b < r.tokens.len() implies #[trigger] r.tokens[a].token_address
                != #[trigger] r.tokens[b].token_address by {
                lemma_distinct_at(tokens, a, b);
            }
        }
        if w.amount > 0 && has_token(r.tokens, w.token_address) {
            let c = token_index(r.tokens, w.token_address);
            assert(r.tokens[c].token_address == w.token_address);
            if c != i {
                assert(process_outcome(r.tokens, w).0[i] == r.tokens[i]);
            }
        }
        if forall|k: int| 0 <= k < ws.len() ==> #[trigger] ws[k].token_address
            != tokens[i].token_address {
            assert(forall|k: int| 0 <= k < prev.len() ==> #[trigger] prev[k].token_address
                != tokens[i].token_address) by {
                assert forall|k: int| 0 <= k < prev.len() implies #[trigger] prev[k].token_address
                    != tokens[i].token_address by {
                    assert(prev[k] == ws[k]);
                }
            }
            assert(ws[ws.len() - 1] == w);
        }
    }
}

/// Settling a sequence of streams settles each stream on its own.
proof fn lemma_settle_tokens_each(tokens: Seq<TokenBalance>, elapsed: int)
    requires
        settle_tokens(tokens, elapsed) is Ok,
    ensures
        settle_tokens(tokens, elapsed)->Ok_0.len() == tokens.len(),
        forall|i: int|
            0 <= i < tokens.len() ==> settle_token_outcome(#[trigger] tokens[i], elapsed) is Ok
                && settle_tokens(tokens, elapsed)->Ok_0[i] == settle_token_outcome(tokens[i], elapsed)->Ok_0,
    decreases tokens.len(),
{
    if tokens.len() > 0 {
        lemma_settle_tokens_each(tokens.drop_last(), elapsed);
        assert forall|i: int| 0 <= i < tokens.len() implies settle_token_outcome(#[trigger] tokens[i], elapsed) is Ok
            && settle_tokens(tokens, elapsed)->Ok_0[i] == settle_token_outcome(tokens[i], elapsed)->Ok_0 by {
            if i < tokens.len() - 1 {
                assert(tokens.drop_last()[i] == tokens[i]);
            }
        }
    }
}

/// One stream whose withdrawn and claimable amounts are within its total
/// gains its rate times the time elapsed, capped at what is left of its
/// total once withdrawn and claimable amounts are counted, and stays within
/// its total.
proof fn lemma_settle_token_caps(t: TokenBalance, elapsed: int)
    requires
        0 <= t.withdrawn,
        0 <= t.claimable,
        t.withdrawn + t.claimable <= t.total_amount,
        0 <= t.flow_rate,
        0 <= elapsed,
        settle_token_outcome(t, elapsed) is Ok,
    ensures
        ({
            let u = settle_token_outcome(t, elapsed)->Ok_0;
            &&& u.claimable == t.claimable + min_int(
                t.flow_rate * elapsed,
                t.total_amount - t.withdrawn - t.claimable,
            )
            &&& u.withdrawn == t.withdrawn && u.total_amount == t.total_amount
            &&& u.flow_rate == t.flow_rate && u.token_address == t.token_address
            &&& u.withdrawn + u.claimable <= u.total_amount
        }),
{
    assert(t.flow_rate * elapsed >= 0) by (nonlinear_arith)
        requires
            0 <= t.flow_rate,
            0 <= elapsed,
    ;
    if t.flow_rate == 0 {
        assert(t.flow_rate * elapsed == 0);
    }
}

/// Settling a multi-token grant accrues each stream on its own: while the
/// grant is active a stream whose withdrawn and claimable amounts are within
/// its total gains its rate times the time elapsed, capped at what is left of
/// its total once withdrawn and claimable amounts are counted, so it never
/// goes beyond its total; a grant that is not active gains nothing. Either
/// way the grant's update time becomes `now`.
pub proof fn law_multi_settle_caps(g: MultiTokenGrantView, now: u64, i: int)
    requires
        multi_grant_wf(g),
        0 <= i < g.tokens.len(),
        0 <= g.tokens[i].withdrawn,
        0 <= g.tokens[i].claimable,
        g.tokens[i].withdrawn + g.tokens[i].claimable <= g.tokens[i].total_amount,
        settle_multi_outcome(g, now) is Ok,
    ensures
        ({
            let h = settle_multi_outcome(g, now)->Ok_0;
            let t = g.tokens[i];
            let u = h.tokens[i];
            &&& h.last_update_ts == now
            &&& h.tokens.len() == g.tokens.len()
            &&& u.claimable == t.claimable + (if flag_set(g.status_mask, STATUS_ACTIVE) {
                min_int(t.flow_rate * (now - g.last_update_ts), t.total_amount - t.withdrawn - t.claimable)
            } else {
                0
            })
            &&& u.withdrawn == t.withdrawn && u.total_amount == t.total_amount
            &&& u.flow_rate == t.flow_rate && u.token_address == t.token_address
            &&& u.withdrawn + u.claimable <= u.total_amount
        }),
{
    let t = g.tokens[i];
    let e: int = now - g.last_update_ts;
    assert(t.flow_rate >= 0);
    if flag_set(g.status_mask, STATUS_ACTIVE) && e != 0 {
        lemma_settle_tokens_each(g.tokens, e);
        lemma_settle_token_caps(t, e);
    } else if flag_set(g.status_mask, STATUS_ACTIVE) {
        assert(t.flow_rate * e == 0);
    }
}

/// Rate changes touch nothing but the rates.
proof fn lemma_rate_updates_keep_amounts(tokens: Seq<TokenBalance>, updates: Seq<TokenBalance>)
    requires
        apply_rate_updates(tokens, updates) is Ok,
    ensures
        ({
            let ts = apply_rate_updates(tokens, updates)->Ok_0;
            &&& ts.len() == tokens.len()
            &&& forall|i: int|
                0 <= i < tokens.len() ==> #[trigger] ts[i] == (TokenBalance {
                    flow_rate: ts[i].flow_rate,
                    ..tokens[i]
                })
        }),
    decreases updates.len(),
{
    if updates.len() > 0 {
        lemma_rate_updates_keep_amounts(tokens, updates.drop_last());
    }
}

/// A rate change settles first: the grant is stored as brought up to `now`
/// at the old rates, each stream whose amounts are within its total having
/// gained its old rate times the time since the last update (capped at what
/// is left of its total) while the grant was active; only then do the new
/// rates apply, from `now` on.
pub proof fn law_rate_update_settles_first(
    s: GrantContractView,
    caller: Address,
    now: u64,
    id: u64,
    updates: Seq<TokenBalance>,
    i: int,
)
    requires
        s.wf(),
        update_rates_outcome(s, caller, now, id, updates) is Ok,
        0 <= i < s.multi_grants[id].tokens.len(),
        0 <= s.multi_grants[id].tokens[i].withdrawn,
        0 <= s.multi_grants[id].tokens[i].claimable,
        s.multi_grants[id].tokens[i].withdrawn + s.multi_grants[id].tokens[i].claimable
            <= s.multi_grants[id].tokens[i].total_amount,
    ensures
        ({
            let g = s.multi_grants[id];
            let g2 = update_rates_outcome(s, caller, now, id, updates)->Ok_0;
            let t = g.tokens[i];
            &&& g2.last_update_ts == now
            &&& g2.rate_updated_at == now
            &&& g2.tokens.len() == g.tokens.len()
            &&& g2.tokens[i].claimable == t.claimable + (if flag_set(g.status_mask, STATUS_ACTIVE) {
                min_int(t.flow_rate * (now - g.last_update_ts), t.total_amount - t.withdrawn - t.claimable)
            } else {
                0
            })
            &&& g2.tokens[i].withdrawn == t.withdrawn
            &&& g2.tokens[i].total_amount == t.total_amount
        }),
{
    let g = s.multi_grants[id];
    law_multi_settle_caps(g, now, i);
    let h = settle_multi_outcome(g, now)->Ok_0;
    lemma_rate_updates_keep_amounts(h.tokens, updates);
    assert(apply_rate_updates(h.tokens, updates)->Ok_0[i] == (TokenBalance {
        flow_rate: apply_rate_updates(h.tokens, updates)->Ok_0[i].flow_rate,
        ..h.tokens[i]
    }));
}

/// Reading a stream's claimable amount gives it as settled at the time of
/// the read: for a stream whose amounts are within its total, what it held
/// plus, while the grant is active, its rate times the time since the last
/// update, capped at what is left of its total once withdrawn and claimable
/// amounts are counted.
pub proof fn law_token_claimable_is_settled(s: GrantContractView, now: u64, id: u64, i: int)
    requires
        s.wf(),
        s.multi_grants.contains_key(id),
        0 <= i < s.multi_grants[id].tokens.len(),
        0 <= s.multi_grants[id].tokens[i].withdrawn,
        0 <= s.multi_grants[id].tokens[i].claimable,
        s.multi_grants[id].tokens[i].withdrawn + s.multi_grants[id].tokens[i].claimable
            <= s.multi_grants[id].tokens[i].total_amount,
        token_claimable_outcome(s, now, id, s.multi_grants[id].tokens[i].token_address) is Ok,
    ensures
        ({
            let g = s.multi_grants[id];
            let t = g.tokens[i];
            let c = token_claimable_outcome(s, now, id, t.token_address)->Ok_0;
            &&& c == t.claimable + (if flag_set(g.status_mask, STATUS_ACTIVE) {
                min_int(t.flow_rate * (now - g.last_update_ts), t.total_amount - t.withdrawn - t.claimable)
            } else {
                0
            })
            &&& t.withdrawn + c <= t.total_amount
        }),
{
    let g = s.multi_grants[id];
    let t = g.tokens[i];
    law_multi_settle_caps(g, now, i);
    let h = settle_multi_outcome(g, now)->Ok_0;
    lemma_settle_kept_distinct(g, now);
    let k = token_index(h.tokens, t.token_address);
    assert(h.tokens[i].token_address == t.token_address);
    if k != i {
        if k < i {
            lemma_distinct_at(h.tokens, k, i);
        } else {
            lemma_distinct_at(h.tokens, i, k);
        }
    }
}

/// Settling keeps the streams of distinct tokens.
proof fn lemma_settle_kept_distinct(g: MultiTokenGrantView, now: u64)
    requires
        multi_grant_wf(g),
        settle_multi_outcome(g, now) is Ok,
    ensures
        tokens_distinct(settle_multi_outcome(g, now)->Ok_0.tokens),
{
    if flag_set(g.status_mask, STATUS_ACTIVE) && now - g.last_update_ts != 0 {
        lemma_settle_tokens_shape(g.tokens, now - g.last_update_ts);
        lemma_same_tokens_distinct(g.tokens, settle_multi_outcome(g, now)->Ok_0.tokens);
    }
}

/// Applies one withdrawal request to distinct streams (see [`process_outcome`]).
fn process_token_withdrawal(tokens: &mut Vec<TokenBalance>, withdrawal: &TokenWithdrawal) -> (r:
    Result<i128, Error>)
    requires
        tokens_distinct(old(tokens)@),
    ensures
        (final(tokens)@, r) == process_outcome(old(tokens)@, *withdrawal),
{
    if withdrawal.amount <= 0 {
        return Err(Error::InvalidAmount);
    }
    let index = match find_token(tokens, &withdrawal.token_address) {
        Some(i) => i,
        None => return Err(Error::GrantNotFound),
    };
    let token = tokens[index];
    if withdrawal.amount > token.claimable {
        return Err(Error::InvalidAmount);
    }
    let reduced = TokenBalance { claimable: token.claimable - withdrawal.amount, ..token };
    match token.withdrawn.checked_add(withdrawal.amount) {
        None => Err(Error::MathOverflow),
        Some(withdrawn) => {
            tokens.set(index, TokenBalance { withdrawn, ..reduced });
            Ok(withdrawal.amount)
        },
    }
}

/// Scans the streams in order: `Some(false)` at the first stream whose
/// withdrawn and claimable amounts fall short of its total, `Some(true)` when
/// none does, and `None` when a sum before that leaves `i128`.
pub open spec fn scan_fully_withdrawn(tokens: Seq<TokenBalance>) -> Option<bool>
    decreases tokens.len(),
{
    if tokens.len() == 0 {
        Some(true)
    } else {
        let t = tokens[0];
        if !fits_i128(t.withdrawn + t.claimable) {
            None
        } else if t.withdrawn + t.claimable < t.total_amount {
            Some(false)
        } else {
            scan_fully_withdrawn(tokens.drop_first())
        }
    }
}

/// Streams with the same totals and the same withdrawn-plus-claimable sums,
/// position by position, scan alike.
proof fn lemma_scan_same_sums(a: Seq<TokenBalance>, b: Seq<TokenBalance>)
    requires
        a.len() == b.len(),
        forall|i: int|
            0 <= i < a.len() ==> (#[trigger] a[i]).total_amount == b[i].total_amount && a[i].withdrawn
                + a[i].claimable == b[i].withdrawn + b[i].claimable,
    ensures
        scan_fully_withdrawn(a) == scan_fully_withdrawn(b),
    decreases a.len(),
{
    if a.len() > 0 {
        assert(a[0].total_amount == b[0].total_amount);
        assert forall|i: int| 0 <= i < a.drop_first().len() implies (#[trigger] a.drop_first()[i]).total_amount
            == b.drop_first()[i].total_amount && a.drop_first()[i].withdrawn
            + a.drop_first()[i].claimable == b.drop_first()[i].withdrawn
            + b.drop_first()[i].claimable by {
            assert(a.drop_first()[i] == a[i + 1]);
            assert(b.drop_first()[i] == b[i + 1]);
        }
        lemma_scan_same_sums(a.drop_first(), b.drop_first());
    }
}

/// A run of withdrawal requests leaves the scan of distinct streams as it
/// was: each stream keeps its total and its withdrawn-plus-claimable sum.
proof fn lemma_run_keeps_scan(tokens: Seq<TokenBalance>, ws: Seq<TokenWithdrawal>)
    requires
        tokens_distinct(tokens),
    ensures
        scan_fully_withdrawn(run_withdrawals(tokens, ws).tokens) == scan_fully_withdrawn(tokens),
{
    let r = run_withdrawals(tokens, ws);
    lemma_run_withdrawals_shape(tokens, ws);
    assert forall|i: int| 0 <= i < r.tokens.len() implies (#[trigger] r.tokens[i]).total_amount
        == tokens[i].total_amount && r.tokens[i].withdrawn + r.tokens[i].claimable
        == tokens[i].withdrawn + tokens[i].claimable by {
        law_withdrawals_per_token(tokens, ws, i);
    }
    lemma_scan_same_sums(r.tokens, tokens);
}

/// The scan of `tokens` (see [`scan_fully_withdrawn`]), `None` where a sum
/// leaves `i128`.
fn scan_withdrawn(tokens: &Vec<TokenBalance>) -> (r: Option<bool>)
    ensures
        r == scan_fully_withdrawn(tokens@),
{
    let mut i: usize = 0;
    assert(tokens@.subrange(0, tokens@.len() as int) =~= tokens@);
    while i < tokens.len()
        invariant
            0 <= i <= tokens@.len(),
            scan_fully_withdrawn(tokens@.subrange(i as int, tokens@.len() as int))
                == scan_fully_withdrawn(tokens@),
        decreases tokens@.len() - i,
    {
        let ghost rest = tokens@.subrange(i as int, tokens@.len() as int);
        assert(rest[0] == tokens@[i as int]);
        assert(rest.drop_first() =~= tokens@.subrange(i + 1, tokens@.len() as int));
        let token = tokens[i];
        let accounted = match token.withdrawn.checked_add(token.claimable) {
            Some(v) => v,
            None => return None,
        };
        if accounted < token.total_amount {
            return Some(false);
        }
        i = i + 1;
    }
    assert(tokens@.subrange(i as int, tokens@.len() as int) =~= Seq::<TokenBalance>::empty());
    Some(true)
}

/// Whether every stream has its total withdrawn or claimable.
fn is_grant_fully_withdrawn(tokens: &Vec<TokenBalance>) -> (r: bool)
    requires
        scan_fully_withdrawn(tokens@) is Some,
    ensures
        Some(r) == scan_fully_withdrawn(tokens@),
{
    let mut i: usize = 0;
    assert(tokens@.subrange(0, tokens@.len() as int) =~= tokens@);
    while i < tokens.len()
        invariant
            0 <= i <= tokens@.len(),
            scan_fully_withdrawn(tokens@.subrange(i as int, tokens@.len() as int))
                == scan_fully_withdrawn(tokens@),
            scan_fully_withdrawn(tokens@) is Some,
        decreases tokens@.len() - i,
    {
        let ghost rest = tokens@.subrange(i as int, tokens@.len() as int);
        assert(rest[0] == tokens@[i as int]);
        assert(rest.drop_first() =~= tokens@.subrange(i + 1, tokens@.len() as int));
        let token = tokens[i];
        let accounted = token.withdrawn + token.claimable;
        if accounted < token.total_amount {
            return false;
        }
        i = i + 1;
    }
    true
}

/// The rate changes `updates` applied in order: each sets the rate of the
/// stream of its token; the first negative rate or unknown token fails.
pub open spec fn apply_rate_updates(tokens: Seq<TokenBalance>, updates: Seq<TokenBalance>) -> Result<
    Seq<TokenBalance>,
    ContractError,
>
    decreases updates.len(),
{
    if updates.len() == 0 {
        Ok(tokens)
    } else {
        match apply_rate_updates(tokens, updates.drop_last()) {
            Err(e) => Err(e),
            Ok(ts) => {
                let u = updates.last();
                if u.flow_rate < 0 {
                    Err(ContractError::Grant(Error::InvalidRate))
                } else if !has_token(ts, u.token_address) {
                    Err(ContractError::MultiToken(MultiTokenError::TokenNotFound))
                } else {
                    let i = token_index(ts, u.token_address);
                    Ok(ts.update(i, TokenBalance { flow_rate: u.flow_rate, ..ts[i] }))
                }
            },
        }
    }
}

/// Rate changes keep the streams' number, order and tokens, and no rate
/// they set is negative.
proof fn lemma_rate_updates_shape(tokens: Seq<TokenBalance>, updates: Seq<TokenBalance>)
    requires
        apply_rate_updates(tokens, updates) is Ok,
        forall|i: int| 0 <= i < tokens.len() ==> #[trigger] tokens[i].flow_rate >= 0,
    ensures
        ({
            let ts = apply_rate_updates(tokens, updates)->Ok_0;
            &&& ts.len() == tokens.len()
            &&& forall|i: int|
                0 <= i < tokens.len() ==> (#[trigger] ts[i]).token_address
                    == tokens[i].token_address && ts[i].flow_rate >= 0
        }),
    decreases updates.len(),
{
    if updates.len() > 0 {
        lemma_rate_updates_shape(tokens, updates.drop_last());
    }
}

/// Once a prefix of the updates fails, the whole run fails the same way.
proof fn lemma_rate_updates_prefix(tokens: Seq<TokenBalance>, updates: Seq<TokenBalance>, k: int)
    requires
        0 <= k <= updates.len(),
        apply_rate_updates(tokens, updates.take(k)) is Err,
    ensures
        apply_rate_updates(tokens, updates) == apply_rate_updates(tokens, updates.take(k)),
    decreases updates.len(),
{
    if k < updates.len() {
        assert(updates.drop_last().take(k) =~= updates.take(k));
        lemma_rate_updates_prefix(tokens, updates.drop_last(), k);
    } else {
        assert(updates.take(k) =~= updates);
    }
}


impl GrantContractView {
    /// The multi-token grant `id`, or `GrantNotFound`.
    pub open spec fn lookup_multi(self, id: u64) -> Result<MultiTokenGrantView, Error> {
        if self.multi_grants.contains_key(id) {
            Ok(self.multi_grants[id])
        } else {
            Err(Error::GrantNotFound)
        }
    }

    /// The state with multi-token grant `id` replaced by `g`.
    pub open spec fn with_multi(self, id: u64, g: MultiTokenGrantView) -> GrantContractView {
        GrantContractView { multi_grants: self.multi_grants.insert(id, g), ..self }
    }
}

/// The grant that `create_multi_token_grant` stores, or why it refuses.
pub open spec fn create_multi_outcome(
    s: GrantContractView,
    caller: Address,
    now: u64,
    id: u64,
    recipient: Address,
    tokens: Seq<TokenBalance>,
    mask: u32,
) -> Result<MultiTokenGrantView, ContractError> {
    if s.admin_refusal(caller) is Some {
        Err(ContractError::Grant(s.admin_refusal(caller)->Some_0))
    } else if tokens.len() == 0 {
        Err(ContractError::MultiToken(MultiTokenError::EmptyTokenList))
    } else if first_token_problem(tokens) is Some {
        Err(ContractError::Grant(first_token_problem(tokens)->Some_0))
    } else if !tokens_distinct(tokens) {
        Err(ContractError::MultiToken(MultiTokenError::DuplicateToken))
    } else if s.has_id(id) {
        Err(ContractError::Grant(Error::GrantAlreadyExists))
    } else if !transition_allowed(0, mask) {
        Err(ContractError::Grant(Error::InvalidStatusTransition))
    } else {
        Ok(
            MultiTokenGrantView {
                recipient,
                tokens,
                last_update_ts: now,
                rate_updated_at: now,
                status_mask: mask,
            },
        )
    }
}

/// What `multi_token_withdraw` stores and reports, or why it refuses.
///
/// The active grant is settled, the requests are applied in order (see
/// [`run_withdrawals`]), and the grant completes when every stream then has
/// its total withdrawn or claimable.
pub open spec fn multi_withdraw_outcome(
    s: GrantContractView,
    caller: Address,
    now: u64,
    id: u64,
    ws: Seq<TokenWithdrawal>,
) -> Result<(MultiTokenGrantView, WithdrawalRun), Error> {
    if ws.len() == 0 {
        Err(Error::InvalidAmount)
    } else if s.lookup_multi(id) is Err {
        Err(Error::GrantNotFound)
    } else {
        let g = s.multi_grants[id];
        if !flag_set(g.status_mask, STATUS_ACTIVE) {
            Err(Error::InvalidState)
        } else if caller != g.recipient {
            Err(Error::NotAuthorized)
        } else {
            match settle_multi_outcome(g, now) {
                Err(e) => Err(e),
                Ok(h) => {
                    let run = run_withdrawals(h.tokens, ws);
                    let mask = if scan_fully_withdrawn(run.tokens) == Some(true) {
                        completed_mask(h.status_mask)
                    } else {
                        h.status_mask
                    };
                    Ok((MultiTokenGrantView { tokens: run.tokens, status_mask: mask, ..h }, run))
                },
            }
        }
    }
}

/// The claimable amount of the token at `addr` in multi-token grant `id` at
/// time `now`, or why it cannot be read.
pub open spec fn token_claimable_outcome(s: GrantContractView, now: u64, id: u64, addr: Address) -> Result<
    i128,
    ContractError,
> {
    match s.lookup_multi(id) {
        Err(e) => Err(ContractError::Grant(e)),
        Ok(g) => match settle_multi_outcome(g, now) {
            Err(e) => Err(ContractError::Grant(e)),
            Ok(h) => if has_token(h.tokens, addr) {
                Ok(h.tokens[token_index(h.tokens, addr)].claimable)
            } else {
                Err(ContractError::MultiToken(MultiTokenError::TokenNotFound))
            },
        },
    }
}

/// The multi-token grant `id` as it stands at `now`.
pub open spec fn multi_preview_outcome(s: GrantContractView, now: u64, id: u64) -> Result<
    MultiTokenGrantView,
    Error,
> {
    match s.lookup_multi(id) {
        Err(e) => Err(e),
        Ok(g) => settle_multi_outcome(g, now),
    }
}

/// The grant that `update_multi_token_rates` stores, or why it refuses.
pub open spec fn update_rates_outcome(
    s: GrantContractView,
    caller: Address,
    now: u64,
    id: u64,
    updates: Seq<TokenBalance>,
) -> Result<MultiTokenGrantView, ContractError> {
    if s.admin_refusal(caller) is Some {
        Err(ContractError::Grant(s.admin_refusal(caller)->Some_0))
    } else if s.lookup_multi(id) is Err {
        Err(ContractError::Grant(Error::GrantNotFound))
    } else {
        let g = s.multi_grants[id];
        if !flag_set(g.status_mask, STATUS_ACTIVE) && !flag_set(g.status_mask, STATUS_PAUSED) {
            Err(ContractError::Grant(Error::InvalidState))
        } else {
            match settle_multi_outcome(g, now) {
                Err(e) => Err(ContractError::Grant(e)),
                Ok(h) => match apply_rate_updates(h.tokens, updates) {
                    Err(e) => Err(e),
                    Ok(ts) => Ok(MultiTokenGrantView { tokens: ts, rate_updated_at: now, ..h }),
                },
            }
        }
    }
}

/// The grant that `add_token_to_grant` stores, or why it refuses.
pub open spec fn add_token_outcome(
    s: GrantContractView,
    caller: Address,
    id: u64,
    t: TokenBalance,
) -> Result<MultiTokenGrantView, ContractError> {
    if s.admin_refusal(caller) is Some {
        Err(ContractError::Grant(s.admin_refusal(caller)->Some_0))
    } else if s.lookup_multi(id) is Err {
        Err(ContractError::Grant(Error::GrantNotFound))
    } else {
        let g = s.multi_grants[id];
        if has_token(g.tokens, t.token_address) {
            Err(ContractError::MultiToken(MultiTokenError::DuplicateToken))
        } else if t.total_amount <= 0 || t.flow_rate < 0 {
            Err(ContractError::Grant(Error::InvalidAmount))
        } else {
            Ok(MultiTokenGrantView { tokens: g.tokens.push(t), ..g })
        }
    }
}

/// The grant that `remove_token_from_grant` stores, or why it refuses: the
/// grant is settled and the stream of the token dropped, unless the stream
/// still has something claimable or not withdrawn, or is the only one.
pub open spec fn remove_token_outcome(
    s: GrantContractView,
    caller: Address,
    now: u64,
    id: u64,
    addr: Address,
) -> Result<MultiTokenGrantView, ContractError> {
    if s.admin_refusal(caller) is Some {
        Err(ContractError::Grant(s.admin_refusal(caller)->Some_0))
    } else if s.lookup_multi(id) is Err {
        Err(ContractError::Grant(Error::GrantNotFound))
    } else {
        match settle_multi_outcome(s.multi_grants[id], now) {
            Err(e) => Err(ContractError::Grant(e)),
            Ok(h) => if !has_token(h.tokens, addr) {
                Err(ContractError::MultiToken(MultiTokenError::TokenNotFound))
            } else {
                let i = token_index(h.tokens, addr);
                let t = h.tokens[i];
                if t.claimable > 0 || t.total_amount - t.withdrawn > 0 {
                    Err(ContractError::Grant(Error::InvalidState))
                } else if h.tokens.len() == 1 {
                    Err(ContractError::Grant(Error::InvalidAmount))
                } else {
                    Ok(MultiTokenGrantView { tokens: h.tokens.remove(i), ..h })
                }
            },
        }
    }
}

/// Streams with the same tokens in the same order as distinct streams are
/// distinct.
proof fn lemma_same_tokens_distinct(a: Seq<TokenBalance>, b: Seq<TokenBalance>)
    requires
        tokens_distinct(a),
        a.len() == b.len(),
        forall|i: int| 0 <= i < a.len() ==> (#[trigger] b[i]).token_address == a[i].token_address,
    ensures
        tokens_distinct(b),
{
    assert forall|i: int, j: int| 0 <= i < j < b.len() implies #[trigger] b[i].token_address
        != #[trigger] b[j].token_address by {
        lemma_distinct_at(a, i, j);
    }
}

/// No stream offered is refused, so each one has a non-negative rate.
proof fn lemma_no_problem_rates(tokens: Seq<TokenBalance>)
    requires
        first_token_problem(tokens) is None,
    ensures
        forall|i: int| 0 <= i < tokens.len() ==> #[trigger] tokens[i].flow_rate >= 0,
    decreases tokens.len(),
{
    if tokens.len() > 0 {
        lemma_no_problem_rates(tokens.drop_last());
        assert forall|i: int| 0 <= i < tokens.len() implies #[trigger] tokens[i].flow_rate >= 0 by {
            if i < tokens.len() - 1 {
                assert(tokens.drop_last()[i] == tokens[i]);
            }
        }
    }
}

/// Sets the rate of the stream of the token at `addr`.
fn update_token_flow_rate(tokens: &mut Vec<TokenBalance>, addr: &Address, new_flow_rate: i128) -> (r:
    Result<(), ContractError>)
    requires
        tokens_distinct(old(tokens)@),
    ensures
        new_flow_rate < 0 ==> r == Err::<(), ContractError>(ContractError::Grant(Error::InvalidRate))
            && final(tokens)@ == old(tokens)@,
        new_flow_rate >= 0 && !has_token(old(tokens)@, *addr) ==> r == Err::<(), ContractError>(
            ContractError::MultiToken(MultiTokenError::TokenNotFound),
        ),
        new_flow_rate >= 0 && has_token(old(tokens)@, *addr) ==> (r is Ok) && final(tokens)@ == old(
            tokens,
        )@.update(
            token_index(old(tokens)@, *addr),
            (TokenBalance {
                flow_rate: new_flow_rate,
                ..old(tokens)@[token_index(old(tokens)@, *addr)]
            }),
        ),
{
    if new_flow_rate < 0 {
        return Err(ContractError::Grant(Error::InvalidRate));
    }
    match find_token(tokens, addr) {
        Some(i) => {
            let t = tokens[i];
            tokens.set(i, TokenBalance { flow_rate: new_flow_rate, ..t });
            Ok(())
        },
        None => Err(ContractError::MultiToken(MultiTokenError::TokenNotFound)),
    }
}

impl GrantContract {
    fn read_multi_token_grant(&self, grant_id: u64) -> (r: Result<MultiTokenGrant, Error>)
        ensures
            match self@.lookup_multi(grant_id) {
                Ok(g) => r is Ok && r->Ok_0@ == g,
                Err(e) => r is Err && r->Err_0 == e,
            },
    {
        match self.multi_grants.get(&grant_id) {
            Some(g) => Ok(g.duplicate()),
            None => Err(Error::GrantNotFound),
        }
    }

    fn write_multi_token_grant(&mut self, grant_id: u64, grant: MultiTokenGrant)
        requires
            old(self).wf(),
            multi_grant_wf(grant@),
            !old(self)@.grants.contains_key(grant_id),
        ensures
            final(self)@ == old(self)@.with_multi(grant_id, grant@),
            final(self).wf(),
    {
        let ghost g = grant@;
        self.multi_grants.insert(grant_id, grant);
        assert(self@.multi_grants =~= old(self)@.multi_grants.insert(grant_id, g));
    }

    /// Creates multi-token grant `grant_id` streaming each of `tokens` to
    /// `recipient` from now on (see [`create_multi_outcome`]).
    pub fn create_multi_token_grant(
        &mut self,
        inv: &Invocation,
        grant_id: u64,
        recipient: Address,
        tokens: Vec<TokenBalance>,
        initial_status_mask: u32,
    ) -> (r: Result<(), ContractError>)
        requires
            old(self).wf(),
        ensures
            final(self).wf(),
            match create_multi_outcome(
                old(self)@,
                inv.caller,
                inv.timestamp,
                grant_id,
                recipient,
                tokens@,
                initial_status_mask,
            ) {
                Ok(g) => r is Ok && final(self)@ == old(self)@.with_multi(grant_id, g),
                Err(e) => r == Err::<(), ContractError>(e) && final(self)@ == old(self)@,
            },
    {
        grant_result(self.require_admin(&inv.caller))?;
        if tokens.len() == 0 {
            return Err(ContractError::MultiToken(MultiTokenError::EmptyTokenList));
        }
        grant_result(validate_token_balances(&tokens))?;
        if let Err(e) = check_duplicate_tokens(&tokens) {
            return Err(ContractError::MultiToken(e));
        }
        if self.grants.contains_key(&grant_id) || self.multi_grants.contains_key(&grant_id) {
            return Err(ContractError::Grant(Error::GrantAlreadyExists));
        }
        grant_result(validate_status_transition(0, initial_status_mask))?;
        proof {
            lemma_no_problem_rates(tokens@);
        }
        let grant = MultiTokenGrant {
            recipient,
            tokens,
            last_update_ts: inv.timestamp,
            rate_updated_at: inv.timestamp,
            status_mask: initial_status_mask,
        };
        self.write_multi_token_grant(grant_id, grant);
        Ok(())
    }

    /// Whether `multi_token_withdraw` can tell within `i128` whether the grant
    /// is then fully withdrawn, as it needs to (see its `requires`): true
    /// unless the withdrawal would succeed and some stream's withdrawn plus
    /// claimable amount, up to the first that falls short of its total, leaves
    /// `i128`.
    pub fn multi_token_withdraw_computable(
        &self,
        inv: &Invocation,
        grant_id: u64,
        withdrawals: &Vec<TokenWithdrawal>,
    ) -> (r: bool)
        requires
            self.wf(),
        ensures
            r == (multi_withdraw_outcome(self@, inv.caller, inv.timestamp, grant_id, withdrawals@) is Ok
                ==> scan_fully_withdrawn(
                multi_withdraw_outcome(
                    self@,
                    inv.caller,
                    inv.timestamp,
                    grant_id,
                    withdrawals@,
                )->Ok_0.1.tokens,
            ) is Some),
    {
        if withdrawals.len() == 0 {
            return true;
        }
        let stored = match self.read_multi_token_grant(grant_id) {
            Ok(g) => g,
            Err(_) => return true,
        };
        if !has_status(stored.status_mask, STATUS_ACTIVE) {
            return true;
        }
        if !stored.recipient.same_as(&inv.caller) {
            return true;
        }
        let grant = match settle_multi_token_grant(&stored, inv.timestamp) {
            Ok(g) => g,
            Err(_) => return true,
        };
        proof {
            if flag_set(stored.status_mask, STATUS_ACTIVE) && inv.timestamp
                - stored.last_update_ts != 0 {
                lemma_settle_tokens_shape(stored.tokens@, inv.timestamp - stored.last_update_ts);
                lemma_same_tokens_distinct(stored.tokens@, grant.tokens@);
            }
            lemma_run_keeps_scan(grant.tokens@, withdrawals@);
        }
        scan_withdrawn(&grant.tokens).is_some()
    }

    /// Withdraws from several streams of the active multi-token grant
    /// `grant_id` at once; its recipient must authorize the call. Each request
    /// succeeds or fails on its own (see [`multi_withdraw_outcome`]).
    pub fn multi_token_withdraw(
        &mut self,
        inv: &Invocation,
        grant_id: u64,
        withdrawals: Vec<TokenWithdrawal>,
    ) -> (r: Result<MultiTokenWithdrawResult, Error>)
        requires
            old(self).wf(),
            multi_withdraw_outcome(old(self)@, inv.caller, inv.timestamp, grant_id, withdrawals@) is Ok
                ==> scan_fully_withdrawn(
                multi_withdraw_outcome(
                    old(self)@,
                    inv.caller,
                    inv.timestamp,
                    grant_id,
                    withdrawals@,
                )->Ok_0.1.tokens,
            ) is Some,
        ensures
            final(self).wf(),
            match multi_withdraw_outcome(
                old(self)@,
                inv.caller,
                inv.timestamp,
                grant_id,
                withdrawals@,
            ) {
                Ok((g, run)) => {
                    &&& r is Ok
                    &&& final(self)@ == old(self)@.with_multi(grant_id, g)
                    &&& r->Ok_0.grant_id == grant_id
                    &&& r->Ok_0.successful_withdrawals@ == run.successful
                    &&& r->Ok_0.failed_withdrawals@ == run.failed
                    &&& r->Ok_0.total_withdrawn@ == run.amounts
                    &&& r->Ok_0.withdrawn_at == inv.timestamp
                    &&& run.successful.len() + run.failed.len() == withdrawals@.len()
                },
                Err(e) => r is Err && r->Err_0 == e && final(self)@ == old(self)@,
            },
    {
        if withdrawals.len() == 0 {
            return Err(Error::InvalidAmount);
        }
        let stored = self.read_multi_token_grant(grant_id)?;
        if !has_status(stored.status_mask, STATUS_ACTIVE) {
            return Err(Error::InvalidState);
        }
        if !stored.recipient.same_as(&inv.caller) {
            return Err(Error::NotAuthorized);
        }
        let mut grant = settle_multi_token_grant(&stored, inv.timestamp)?;
        let ghost settled = grant@;
        proof {
            if flag_set(stored.status_mask, STATUS_ACTIVE) && inv.timestamp
                - stored.last_update_ts != 0 {
                lemma_settle_tokens_shape(stored.tokens@, inv.timestamp - stored.last_update_ts);
                lemma_same_tokens_distinct(stored.tokens@, settled.tokens);
            }
        }
        let mut successful_withdrawals: Vec<TokenWithdrawal> = Vec::new();
        let mut failed_withdrawals: Vec<TokenWithdrawal> = Vec::new();
        let mut total_withdrawn = AmountMap::new();
        let mut i: usize = 0;
        while i < withdrawals.len()
            invariant
                0 <= i <= withdrawals@.len(),
                tokens_distinct(settled.tokens),
                run_withdrawals(settled.tokens, withdrawals@.take(i as int)) == (WithdrawalRun {
                    tokens: grant.tokens@,
                    successful: successful_withdrawals@,
                    failed: failed_withdrawals@,
                    amounts: total_withdrawn@,
                }),
                grant.recipient == settled.recipient,
                grant.last_update_ts == settled.last_update_ts,
                grant.rate_updated_at == settled.rate_updated_at,
                grant.status_mask == settled.status_mask,
            decreases withdrawals@.len() - i,
        {
            proof {
                lemma_run_withdrawals_shape(settled.tokens, withdrawals@.take(i as int));
                lemma_same_tokens_distinct(settled.tokens, grant.tokens@);
            }
            assert(withdrawals@.take(i + 1).drop_last() =~= withdrawals@.take(i as int));
            let withdrawal = withdrawals[i];
            match process_token_withdrawal(&mut grant.tokens, &withdrawal) {
                Ok(amount_withdrawn) => {
                    successful_withdrawals.push(withdrawal);
                    total_withdrawn.set(withdrawal.token_address, amount_withdrawn);
                },
                Err(_) => {
                    failed_withdrawals.push(withdrawal);
                },
            }
            i = i + 1;
        }
        assert(withdrawals@.take(i as int) =~= withdrawals@);
        proof {
            lemma_run_withdrawals_shape(settled.tokens, withdrawals@);
            lemma_same_tokens_distinct(settled.tokens, grant.tokens@);
            if flag_set(stored.status_mask, STATUS_ACTIVE) && inv.timestamp
                - stored.last_update_ts != 0 {
                lemma_settle_tokens_shape(stored.tokens@, inv.timestamp - stored.last_update_ts);
            }
            assert forall|k: int| 0 <= k < grant.tokens@.len() implies #[trigger] grant.tokens@[k].flow_rate >= 0 by {
                assert(grant.tokens@[k].flow_rate == settled.tokens[k].flow_rate);
                assert(settled.tokens[k].flow_rate == stored.tokens@[k].flow_rate);
            }
        }
        if is_grant_fully_withdrawn(&grant.tokens) {
            grant.status_mask = set_status(grant.status_mask, STATUS_COMPLETED);
            grant.status_mask = clear_status(grant.status_mask, STATUS_ACTIVE);
        }
        self.write_multi_token_grant(grant_id, grant);
        Ok(
            MultiTokenWithdrawResult {
                grant_id,
                successful_withdrawals,
                failed_withdrawals,
                total_withdrawn,
                withdrawn_at: inv.timestamp,
            },
        )
    }


    /// The claimable amount of the token at `token_address` in multi-token
    /// grant `grant_id` at the invocation's time.
    pub fn get_token_claimable(&self, inv: &Invocation, grant_id: u64, token_address: Address) -> (r:
        Result<i128, ContractError>)
        requires
            self.wf(),
        ensures
            r == token_claimable_outcome(self@, inv.timestamp, grant_id, token_address),
    {
        let stored = grant_result(self.read_multi_token_grant(grant_id))?;
        let grant = grant_result(settle_multi_token_grant(&stored, inv.timestamp))?;
        proof {
            if flag_set(stored.status_mask, STATUS_ACTIVE) && inv.timestamp
                - stored.last_update_ts != 0 {
                lemma_settle_tokens_shape(stored.tokens@, inv.timestamp - stored.last_update_ts);
                lemma_same_tokens_distinct(stored.tokens@, grant.tokens@);
            }
        }
        match find_token(&grant.tokens, &token_address) {
            Some(i) => Ok(grant.tokens[i].claimable),
            None => Err(ContractError::MultiToken(MultiTokenError::TokenNotFound)),
        }
    }

    /// Multi-token grant `grant_id` as it stands at the invocation's time.
    pub fn get_multi_token_grant(&self, inv: &Invocation, grant_id: u64) -> (r: Result<
        MultiTokenGrant,
        Error,
    >)
        ensures
            match multi_preview_outcome(self@, inv.timestamp, grant_id) {
                Ok(g) => r is Ok && r->Ok_0@ == g,
                Err(e) => r is Err && r->Err_0 == e,
            },
    {
        let stored = self.read_multi_token_grant(grant_id)?;
        settle_multi_token_grant(&stored, inv.timestamp)
    }

    /// Sets new rates on streams of the active or paused multi-token grant
    /// `grant_id`, settling it first (see [`update_rates_outcome`]). Each
    /// entry of `token_updates` names a token and its new rate.
    #[verifier::loop_isolation(false)]
    pub fn update_multi_token_rates(
        &mut self,
        inv: &Invocation,
        grant_id: u64,
        token_updates: Vec<TokenBalance>,
    ) -> (r: Result<(), ContractError>)
        requires
            old(self).wf(),
        ensures
            final(self).wf(),
            match update_rates_outcome(
                old(self)@,
                inv.caller,
                inv.timestamp,
                grant_id,
                token_updates@,
            ) {
                Ok(g) => r is Ok && final(self)@ == old(self)@.with_multi(grant_id, g),
                Err(e) => r == Err::<(), ContractError>(e) && final(self)@ == old(self)@,
            },
    {
        grant_result(self.require_admin(&inv.caller))?;
        let stored = grant_result(self.read_multi_token_grant(grant_id))?;
        if !has_status(stored.status_mask, STATUS_ACTIVE) && !has_status(
            stored.status_mask,
            STATUS_PAUSED,
        ) {
            return Err(ContractError::Grant(Error::InvalidState));
        }
        let mut grant = grant_result(settle_multi_token_grant(&stored, inv.timestamp))?;
        let ghost settled = grant@;
        proof {
            if flag_set(stored.status_mask, STATUS_ACTIVE) && inv.timestamp
                - stored.last_update_ts != 0 {
                lemma_settle_tokens_shape(stored.tokens@, inv.timestamp - stored.last_update_ts);
                lemma_same_tokens_distinct(stored.tokens@, settled.tokens);
            }
            assert forall|k: int| 0 <= k < settled.tokens.len() implies #[trigger] settled.tokens[k].flow_rate >= 0 by {
                assert(settled.tokens[k].flow_rate == stored.tokens@[k].flow_rate);
            }
        }
        let mut i: usize = 0;
        while i < token_updates.len()
            invariant
                0 <= i <= token_updates@.len(),
                tokens_distinct(settled.tokens),
                forall|k: int| 0 <= k < settled.tokens.len() ==> #[trigger] settled.tokens[k].flow_rate >= 0,
                apply_rate_updates(settled.tokens, token_updates@.take(i as int)) == Ok::<
                    Seq<TokenBalance>,
                    ContractError,
                >(grant.tokens@),
                grant.recipient == settled.recipient,
                grant.last_update_ts == settled.last_update_ts,
                grant.rate_updated_at == settled.rate_updated_at,
                grant.status_mask == settled.status_mask,
            decreases token_updates@.len() - i,
        {
            proof {
                lemma_rate_updates_shape(settled.tokens, token_updates@.take(i as int));
                lemma_same_tokens_distinct(settled.tokens, grant.tokens@);
            }
            assert(token_updates@.take(i + 1).drop_last() =~= token_updates@.take(i as int));
            let update = token_updates[i];
            let step = update_token_flow_rate(&mut grant.tokens, &update.token_address, update.flow_rate);
            if step.is_err() {
                proof {
                    lemma_rate_updates_prefix(settled.tokens, token_updates@, i + 1);
                }
                return step;
            }
            i = i + 1;
        }
        assert(token_updates@.take(i as int) =~= token_updates@);
        proof {
            lemma_rate_updates_shape(settled.tokens, token_updates@);
            lemma_same_tokens_distinct(settled.tokens, grant.tokens@);
        }
        grant.rate_updated_at = inv.timestamp;
        self.write_multi_token_grant(grant_id, grant);
        Ok(())
    }

    /// Adds the stream `token_balance` to multi-token grant `grant_id` (see
    /// [`add_token_outcome`]). The grant is not settled first.
    pub fn add_token_to_grant(&mut self, inv: &Invocation, grant_id: u64, token_balance: TokenBalance) -> (r:
        Result<(), ContractError>)
        requires
            old(self).wf(),
        ensures
            final(self).wf(),
            match add_token_outcome(old(self)@, inv.caller, grant_id, token_balance) {
                Ok(g) => r is Ok && final(self)@ == old(self)@.with_multi(grant_id, g),
                Err(e) => r == Err::<(), ContractError>(e) && final(self)@ == old(self)@,
            },
    {
        grant_result(self.require_admin(&inv.caller))?;
        let mut grant = grant_result(self.read_multi_token_grant(grant_id))?;
        if find_token(&grant.tokens, &token_balance.token_address).is_some() {
            return Err(ContractError::MultiToken(MultiTokenError::DuplicateToken));
        }
        if token_balance.total_amount <= 0 || token_balance.flow_rate < 0 {
            return Err(ContractError::Grant(Error::InvalidAmount));
        }
        let ghost before = grant.tokens@;
        grant.tokens.push(token_balance);
        proof {
            assert forall|i: int, j: int| 0 <= i < j < grant.tokens@.len() implies #[trigger] grant.tokens@[i].token_address
                != #[trigger] grant.tokens@[j].token_address by {
                if j < before.len() {
                    lemma_distinct_at(before, i, j);
                } else {
                    assert(before[i] == grant.tokens@[i]);
                }
            }
            assert forall|k: int| 0 <= k < grant.tokens@.len() implies #[trigger] grant.tokens@[k].flow_rate >= 0 by {
                if k < before.len() {
                    assert(before[k] == grant.tokens@[k]);
                }
            }
        }
        self.write_multi_token_grant(grant_id, grant);
        Ok(())
    }

    /// Drops the stream of the token at `token_address` from multi-token
    /// grant `grant_id` (see [`remove_token_outcome`]).
    pub fn remove_token_from_grant(&mut self, inv: &Invocation, grant_id: u64, token_address: Address) -> (r:
        Result<(), ContractError>)
        requires
            old(self).wf(),
            old(self)@.lookup_multi(grant_id) is Ok ==> forall|i: int|
                0 <= i < old(self)@.multi_grants[grant_id].tokens.len()
                    && #[trigger] old(self)@.multi_grants[grant_id].tokens[i].token_address
                    == token_address ==> fits_i128(
                    old(self)@.multi_grants[grant_id].tokens[i].total_amount - old(
                        self,
                    )@.multi_grants[grant_id].tokens[i].withdrawn,
                ),
        ensures
            final(self).wf(),
            match remove_token_outcome(old(self)@, inv.caller, inv.timestamp, grant_id, token_address) {
                Ok(g) => r is Ok && final(self)@ == old(self)@.with_multi(grant_id, g),
                Err(e) => r == Err::<(), ContractError>(e) && final(self)@ == old(self)@,
            },
    {
        grant_result(self.require_admin(&inv.caller))?;
        let stored = grant_result(self.read_multi_token_grant(grant_id))?;
        let mut grant = grant_result(settle_multi_token_grant(&stored, inv.timestamp))?;
        let ghost settled = grant@;
        proof {
            if flag_set(stored.status_mask, STATUS_ACTIVE) && inv.timestamp
                - stored.last_update_ts != 0 {
                lemma_settle_tokens_shape(stored.tokens@, inv.timestamp - stored.last_update_ts);
                lemma_same_tokens_distinct(stored.tokens@, settled.tokens);
            }
        }
        let index = match find_token(&grant.tokens, &token_address) {
            Some(i) => i,
            None => return Err(ContractError::MultiToken(MultiTokenError::TokenNotFound)),
        };
        let token = grant.tokens[index];
        proof {
            if flag_set(stored.status_mask, STATUS_ACTIVE) && inv.timestamp
                - stored.last_update_ts != 0 {
                assert(settled.tokens[index as int].withdrawn == stored.tokens@[index as int].withdrawn);
            }
            assert(stored.tokens@[index as int].token_address == token_address);
        }
        if token.claimable > 0 || token.total_amount - token.withdrawn > 0 {
            return Err(ContractError::Grant(Error::InvalidState));
        }
        if grant.tokens.len() == 1 {
            return Err(ContractError::Grant(Error::InvalidAmount));
        }
        let mut new_tokens: Vec<TokenBalance> = Vec::new();
        let mut i: usize = 0;
        while i < grant.tokens.len()
            invariant
                0 <= i <= settled.tokens.len(),
                grant.tokens@ == settled.tokens,
                index < settled.tokens.len(),
                new_tokens@ == (if i <= index {
                    settled.tokens.take(i as int)
                } else {
                    settled.tokens.remove(index as int).take(i - 1)
                }),
            decreases settled.tokens.len() - i,
        {
            if i != index {
                new_tokens.push(grant.tokens[i]);
            }
            proof {
                if i < index {
                    assert(new_tokens@ =~= settled.tokens.take(i + 1));
                } else if i == index {
                    assert(new_tokens@ =~= settled.tokens.remove(index as int).take(i as int));
                } else {
                    assert(new_tokens@ =~= settled.tokens.remove(index as int).take(i as int));
                }
            }
            i = i + 1;
        }
        assert(new_tokens@ =~= settled.tokens.remove(index as int));
        proof {
            let nt = settled.tokens.remove(index as int);
            assert forall|a: int, b: int| 0 <= a < b < nt.len() implies #[trigger] nt[a].token_address
                != #[trigger] nt[b].token_address by {
                let a2 = if a < index { a } else { a + 1 };
                let b2 = if b < index { b } else { b + 1 };
                lemma_distinct_at(settled.tokens, a2, b2);
            }
            assert forall|k: int| 0 <= k < nt.len() implies #[trigger] nt[k].flow_rate >= 0 by {
                let k2 = if k < index { k } else { k + 1 };
                if flag_set(stored.status_mask, STATUS_ACTIVE) && inv.timestamp
                    - stored.last_update_ts != 0 {
                    assert(settled.tokens[k2].flow_rate == stored.tokens@[k2].flow_rate);
                }
            }
        }
        grant.tokens = new_tokens;
        self.write_multi_token_grant(grant_id, grant);
        Ok(())
    }
}

} // verus!
