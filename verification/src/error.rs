//! The one error that the service surfaces, with its status and message.

use crate::store::StoreError;
use crate::validate::ValidationError;
use vstd::prelude::*;

verus! {

/// Why a request was not served.
#[derive(Clone, Copy, Debug, PartialEq, Eq, Structural)]
pub enum AppError {
    /// The submission did not pass validation.
    Invalid(ValidationError),
    /// A record with the same name and email exists.
    Conflict,
    /// The store or the renderer failed.
    Unavailable,
}

/// The HTTP status that goes with an error: 400 for what the client can
/// correct, 500 for a failure behind the service.
pub open spec fn status_of(error: AppError) -> u16 {
    match error {
        AppError::Invalid(_) => 400,
        AppError::Conflict => 400,
        AppError::Unavailable => 500,
    }
}

/// The message for a submission with an empty name or email.
pub const EMPTY_FIELD_MESSAGE: &'static str = "Name and email must not be empty";

/// The message for an attendance answer that is neither `yes` nor `no`.
pub const INVALID_ATTENDING_MESSAGE: &'static str = "Invalid attending value";

/// The message for a second submission under one name and email.
pub const CONFLICT_MESSAGE: &'static str = "Your name and email must be unique!";

/// The message for a failure behind the service. It says nothing of the cause.
pub const UNAVAILABLE_MESSAGE: &'static str = "The service is unavailable, please try again later";

/// The message shown for an error.
pub open spec fn message_of(error: AppError) -> Seq<char> {
    match error {
        AppError::Invalid(ValidationError::EmptyField) => EMPTY_FIELD_MESSAGE@,
        AppError::Invalid(ValidationError::InvalidAttendingValue) => INVALID_ATTENDING_MESSAGE@,
        AppError::Conflict => CONFLICT_MESSAGE@,
        AppError::Unavailable => UNAVAILABLE_MESSAGE@,
    }
}

/// The service error that a store error becomes after an insert.
pub open spec fn insert_failure(error: StoreError) -> AppError {
    match error {
        StoreError::DuplicateEntry => AppError::Conflict,
        StoreError::StorageFailure => AppError::Unavailable,
    }
}

impl AppError {
    /// The HTTP status of the response for this error.
    pub fn status_code(&self) -> (code: u16)
        ensures
            code == status_of(*self),
    {
        match self {
            AppError::Invalid(_) | AppError::Conflict => 400,
            AppError::Unavailable => 500,
        }
    }

    /// The text of the response for this error.
    pub fn message(&self) -> (text: String)
        ensures
            text@ == message_of(*self),
    {
        match self {
            AppError::Invalid(ValidationError::EmptyField) => EMPTY_FIELD_MESSAGE.to_owned(),
            AppError::Invalid(ValidationError::InvalidAttendingValue) => {
                INVALID_ATTENDING_MESSAGE.to_owned()
            },
            AppError::Conflict => CONFLICT_MESSAGE.to_owned(),
            AppError::Unavailable => UNAVAILABLE_MESSAGE.to_owned(),
        }
    }

    /// The service error for a failed insert.
    pub fn from_insert(error: StoreError) -> (out: AppError)
        ensures
            out == insert_failure(error),
    {
        match error {
            StoreError::DuplicateEntry => AppError::Conflict,
            StoreError::StorageFailure => AppError::Unavailable,
        }
    }
}

} // verus!
