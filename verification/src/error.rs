use vstd::prelude::*;

verus! {

/// Failure kinds reported by the post lifecycle operations.
#[derive(Debug, Clone, Copy, PartialEq, Eq, Structural)]
pub enum PostError {
    PostAlreadyExists,
    PostNotFound,
    PostUnAuthorizedOperation,
    PostAlreadyCompleted,
}

/// Failure kinds reported by the portfolio operations.
#[derive(Debug, Clone, Copy, PartialEq, Eq, Structural)]
pub enum PersonalError {
    WalletAlreadyExist,
}

} // verus!
