//! Request guards: the token check of authenticated routes and the
//! content-type check of uploads.
use vstd::prelude::*;

use crate::posts::{allowed_file_type, is_allowed_file_type};
use crate::validations::{Errors, Rejection};

verus! {

/// Authentication failed: no valid, unexpired token.
#[derive(Debug, PartialEq, Eq, Structural, Clone, Copy)]
pub struct FailAuth;

/// Failures around tokens and request bodies.
#[derive(Debug, PartialEq, Eq, Structural, Clone, Copy)]
pub enum MyError {
    JWTTokenError,
    JWTTokenCreationError,
    NoAuthHeaderError,
    InvalidAuthHeaderError,
    FailAuth,
    InvalidJson,
}

/// Whether a token is let through: it must have been decoded, and its
/// expiry must not lie before `time_now`.
pub open spec fn token_admitted(decoded_expiry: Option<usize>, time_now: usize) -> bool {
    match decoded_expiry {
        Some(exp) => !(exp < time_now),
        None => false,
    }
}

/// The decision of an authenticated route on its token: the expiry of the
/// decoded token (`None` when it could not be decoded) against the time the
/// guard was set up.
pub fn authorize(decoded_expiry: Option<usize>, time_now: usize) -> (r: Result<(), Rejection>)
    ensures
        r is Ok <==> token_admitted(decoded_expiry, time_now),
        r is Err ==> r == Err::<(), Rejection>(Rejection::FailAuth(FailAuth)),
{
    match decoded_expiry {
        Some(exp) => {
            if exp < time_now {
                Err(Rejection::FailAuth(FailAuth))
            } else {
                Ok(())
            }
        },
        None => Err(Rejection::FailAuth(FailAuth)),
    }
}

/// The guard, written out: a token that could not be decoded is never let
/// through, whatever the time; a decoded token is let through exactly when
/// the guard's time is not past its expiry.
pub proof fn lemma_guard_exactly(exp: usize, time_now: usize)
    ensures
        !token_admitted(None, time_now),
        token_admitted(Some(exp), time_now) <==> time_now <= exp,
{
}

/// The decision on the `content-type` header of an upload.
pub fn check_file_type(file_type: &str) -> (r: Result<(), Rejection>)
    ensures
        r is Ok <==> allowed_file_type(file_type@),
        r is Err ==> r == Err::<(), Rejection>(Rejection::Posts(Errors::InvalidFileType)),
{
    if is_allowed_file_type(file_type) {
        Ok(())
    } else {
        Err(Rejection::Posts(Errors::InvalidFileType))
    }
}

} // verus!
