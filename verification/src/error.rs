use vstd::prelude::*;

verus! {

/// Why a grant operation was refused.
#[derive(Clone, Copy, Debug, PartialEq, Eq, Structural)]
pub enum Error {
    NotInitialized,
    AlreadyInitialized,
    NotAuthorized,
    GrantNotFound,
    GrantAlreadyExists,
    InvalidRate,
    InvalidAmount,
    InvalidState,
    MathOverflow,
    InvalidStatusTransition,
}

/// Reasons specific to self-termination, numbered after [`Error`]'s.
#[derive(Clone, Copy, Debug, PartialEq, Eq, Structural)]
pub enum SelfTerminateError {
    AlreadyTerminated,
    CannotTerminateCompleted,
    CannotTerminateCancelled,
    InsufficientBalance,
    TransferFailed,
}

/// Reasons specific to multi-token grants.
#[derive(Clone, Copy, Debug, PartialEq, Eq, Structural)]
pub enum MultiTokenError {
    TokenNotFound,
    InvalidTokenAddress,
    DuplicateToken,
    EmptyTokenList,
    TokenTransferFailed,
    InsufficientTokenBalance,
    InvalidTokenAmount,
}

/// Why an operation with reasons of its own was refused: a reason shared by
/// all grant operations, or one specific to self-termination or to
/// multi-token grants.
#[derive(Clone, Copy, Debug, PartialEq, Eq, Structural)]
pub enum ContractError {
    Grant(Error),
    SelfTerminate(SelfTerminateError),
    MultiToken(MultiTokenError),
}

/// `r` with its error, if any, taken as a reason shared by all grant
/// operations.
pub(crate) fn grant_result<T>(r: Result<T, Error>) -> (out: Result<T, ContractError>)
    ensures
        match r {
            Ok(v) => out == Ok::<T, ContractError>(v),
            Err(e) => out == Err::<T, ContractError>(ContractError::Grant(e)),
        },
{
    match r {
        Ok(v) => Ok(v),
        Err(e) => Err(ContractError::Grant(e)),
    }
}

} // verus!
