use partifuller::validate::{
    parse_attending, validate, RsvpSubmission, ValidatedRsvp, ValidationError,
};

fn submission(name: &str, email: &str, attending: &str) -> RsvpSubmission {
    RsvpSubmission {
        name: name.to_string(),
        email: email.to_string(),
        attending: attending.to_string(),
    }
}

#[test]
fn validate_accepts_yes() {
    assert_eq!(
        validate(&submission("Alice", "a@x.com", "yes")),
        Ok(ValidatedRsvp { name: "Alice".to_string(), email: "a@x.com".to_string(), attending: true })
    );
}

#[test]
fn validate_accepts_no() {
    assert_eq!(
        validate(&submission("Alice", "a@x.com", "no")),
        Ok(ValidatedRsvp {
            name: "Alice".to_string(),
            email: "a@x.com".to_string(),
            attending: false
        })
    );
}

#[test]
fn validate_trims_name_and_email() {
    assert_eq!(
        validate(&submission(" Bob ", "\tbob@x.com\n", "yes")),
        Ok(ValidatedRsvp { name: "Bob".to_string(), email: "bob@x.com".to_string(), attending: true })
    );
}

#[test]
fn validate_does_not_change_the_submission() {
    let raw = submission(" Bob ", " b@x.com ", "yes");
    let _ = validate(&raw);
    assert_eq!(raw, submission(" Bob ", " b@x.com ", "yes"));
}

#[test]
fn validate_rejects_empty_name() {
    assert_eq!(validate(&submission("", "a@x.com", "yes")), Err(ValidationError::EmptyField));
}

#[test]
fn validate_rejects_empty_email() {
    assert_eq!(validate(&submission("Alice", "", "no")), Err(ValidationError::EmptyField));
}

#[test]
fn validate_rejects_whitespace_only_fields() {
    assert_eq!(validate(&submission("   ", "a@x.com", "yes")), Err(ValidationError::EmptyField));
    assert_eq!(
        validate(&submission("Alice", "\t\u{00A0}\n", "yes")),
        Err(ValidationError::EmptyField)
    );
}

#[test]
fn validate_rejects_other_attending_tokens() {
    for token in ["Y", "", "true", "YES", "Yes", "No", "NO", " yes", "yes ", "y", "n", "1", "0", "yess"] {
        assert_eq!(
            validate(&submission("Alice", "a@x.com", token)),
            Err(ValidationError::InvalidAttendingValue),
            "token {:?}",
            token
        );
    }
}

#[test]
fn validate_reports_a_bad_answer_before_an_empty_field() {
    assert_eq!(
        validate(&submission("", "", "maybe")),
        Err(ValidationError::InvalidAttendingValue)
    );
}

#[test]
fn validate_is_blind_to_padding() {
    let bare = validate(&submission("Bob", "b@x.com", "no"));
    let padded = validate(&submission("\u{2003}Bob \t", "\nb@x.com\u{3000}", "no"));
    assert_eq!(bare, padded);
}

#[test]
fn parse_attending_reads_the_two_tokens() {
    assert_eq!(parse_attending("yes"), Some(true));
    assert_eq!(parse_attending("no"), Some(false));
}

#[test]
fn parse_attending_rejects_everything_else() {
    for token in ["", "Y", "true", "false", "yes\n", "noo", "on", "ye", "\u{00FF}es", "n\u{00F6}"] {
        assert_eq!(parse_attending(token), None, "token {:?}", token);
    }
}
