//! Checking and normalising a raw submission.

use crate::text::{lemma_trimmed_is_idempotent, same_text, trim, trimmed};
use vstd::prelude::*;

verus! {

/// A submission as it arrives from the form, nothing checked yet.
#[derive(Debug, PartialEq, Eq)]
pub struct RsvpSubmission {
    pub name: String,
    pub email: String,
    pub attending: String,
}

/// The text of a submission's three fields.
pub struct SubmissionView {
    pub name: Seq<char>,
    pub email: Seq<char>,
    pub attending: Seq<char>,
}

impl View for RsvpSubmission {
    type V = SubmissionView;

    open spec fn view(&self) -> SubmissionView {
        SubmissionView { name: self.name@, email: self.email@, attending: self.attending@ }
    }
}

/// A submission that passed validation: name and email are trimmed and not
/// empty, and the attendance answer is a flag.
#[derive(Debug, PartialEq, Eq)]
pub struct ValidatedRsvp {
    pub name: String,
    pub email: String,
    pub attending: bool,
}

/// The content of a validated submission.
pub struct ValidatedView {
    pub name: Seq<char>,
    pub email: Seq<char>,
    pub attending: bool,
}

impl View for ValidatedRsvp {
    type V = ValidatedView;

    open spec fn view(&self) -> ValidatedView {
        ValidatedView { name: self.name@, email: self.email@, attending: self.attending }
    }
}

/// Why a submission was turned down.
#[derive(Clone, Copy, Debug, PartialEq, Eq, Structural)]
pub enum ValidationError {
    /// Name or email is empty once trimmed.
    EmptyField,
    /// The attendance answer is neither `yes` nor `no`.
    InvalidAttendingValue,
}

/// The flag that an attendance answer stands for: `yes` is true, `no` is
/// false, and nothing else is an answer. The tokens are case-sensitive.
pub open spec fn attending_flag(raw: Seq<char>) -> Option<bool> {
    if raw == "yes"@ {
        Some(true)
    } else if raw == "no"@ {
        Some(false)
    } else {
        None
    }
}

/// What validation makes of a submission. The attendance answer is looked at
/// first, so a submission with a bad answer and an empty field is reported
/// for its answer.
pub open spec fn validate_model(raw: SubmissionView) -> Result<ValidatedView, ValidationError> {
    match attending_flag(raw.attending) {
        None => Err(ValidationError::InvalidAttendingValue),
        Some(flag) => {
            if trimmed(raw.name).len() == 0 || trimmed(raw.email).len() == 0 {
                Err(ValidationError::EmptyField)
            } else {
                Ok(
                    ValidatedView {
                        name: trimmed(raw.name),
                        email: trimmed(raw.email),
                        attending: flag,
                    },
                )
            }
        },
    }
}

/// Whether a text is fit for a record: not empty, and free of whitespace at
/// either end.
pub open spec fn is_normal(text: Seq<char>) -> bool {
    text.len() > 0 && trimmed(text) == text
}

/// What validation accepts is normalised: name and email are not empty and
/// have no whitespace left at either end, and the accepted fields, submitted
/// again, are accepted as they are.
pub proof fn lemma_validated_is_normal(raw: SubmissionView)
    ensures
        validate_model(raw) matches Ok(rsvp) ==> {
            &&& is_normal(rsvp.name)
            &&& is_normal(rsvp.email)
            &&& validate_model(
                SubmissionView { name: rsvp.name, email: rsvp.email, attending: raw.attending },
            ) == validate_model(raw)
        },
{
    lemma_trimmed_is_idempotent(raw.name);
    lemma_trimmed_is_idempotent(raw.email);
}

/// Reads an attendance answer.
pub fn parse_attending(raw: &str) -> (flag: Option<bool>)
    ensures
        flag == attending_flag(raw@),
{
    if same_text(raw, "yes") {
        Some(true)
    } else if same_text(raw, "no") {
        Some(false)
    } else {
        None
    }
}

/// Validates a submission: trims name and email, and reads the attendance
/// answer. Nothing but the submission decides the result.
pub fn validate(raw: &RsvpSubmission) -> (out: Result<ValidatedRsvp, ValidationError>)
    ensures
        match out {
            Ok(v) => validate_model(raw@) == Ok::<ValidatedView, ValidationError>(v@),
            Err(e) => validate_model(raw@) == Err::<ValidatedView, ValidationError>(e),
        },
{
    match parse_attending(raw.attending.as_str()) {
        None => Err(ValidationError::InvalidAttendingValue),
        Some(attending) => {
            let name = trim(raw.name.as_str());
            let email = trim(raw.email.as_str());
            if name.as_str().is_empty() || email.as_str().is_empty() {
                Err(ValidationError::EmptyField)
            } else {
                Ok(ValidatedRsvp { name, email, attending })
            }
        },
    }
}

} // verus!
