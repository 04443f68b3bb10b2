use partifuller::error::AppError;
use partifuller::record::RsvpRecord;
use partifuller::service::{step, submit, Action, Event, Phase};
use partifuller::store::{RecordStore, StoreError};
use partifuller::validate::{RsvpSubmission, ValidatedRsvp, ValidationError};

fn submission(name: &str, email: &str, attending: &str) -> RsvpSubmission {
    RsvpSubmission {
        name: name.to_string(),
        email: email.to_string(),
        attending: attending.to_string(),
    }
}

fn record(id: i64, name: &str, email: &str, timestamp: i64, attending: bool) -> RsvpRecord {
    RsvpRecord { id, name: name.to_string(), email: email.to_string(), timestamp, attending }
}

#[test]
fn submit_returns_the_refreshed_listing() {
    let mut store = RecordStore::new();
    let out = submit(&mut store, submission("Alice", "a@x.com", "yes"), 100);
    assert_eq!(out, Ok(vec![record(1, "Alice", "a@x.com", 100, true)]));
    let out = submit(&mut store, submission("Bob", "b@x.com", "no"), 200);
    assert_eq!(
        out,
        Ok(vec![record(1, "Alice", "a@x.com", 100, true), record(2, "Bob", "b@x.com", 200, false)])
    );
}

#[test]
fn distinct_submissions_each_add_one() {
    let mut store = RecordStore::new();
    let guests = [
        ("Alice", "a@x.com", "yes"),
        ("Bob", "b@x.com", "no"),
        ("Alice", "alice@y.org", "yes"),
        ("Carol", "a@x.com", "no"),
        ("Dave", "d@x.com", "yes"),
    ];
    let mut expected = 0;
    for (name, email, attending) in guests {
        let before = store.len();
        let list = submit(&mut store, submission(name, email, attending), 1).unwrap();
        expected += 1;
        assert_eq!(list.len(), before + 1);
        assert_eq!(list.len(), expected);
        assert_eq!(store.len(), expected);
    }
}

#[test]
fn submitting_twice_is_a_conflict() {
    let mut store = RecordStore::new();
    submit(&mut store, submission("Alice", "a@x.com", "yes"), 1).unwrap();
    let again = submit(&mut store, submission("Alice", "a@x.com", "yes"), 2);
    assert_eq!(again, Err(AppError::Conflict));
    assert_eq!(store.len(), 1);
    assert_eq!(store.list_all(), Ok(vec![record(1, "Alice", "a@x.com", 1, true)]));
}

#[test]
fn padded_name_is_the_same_guest() {
    let mut store = RecordStore::new();
    submit(&mut store, submission(" Bob ", "bob@x.com", "yes"), 1).unwrap();
    let again = submit(&mut store, submission("Bob", "bob@x.com", "yes"), 2);
    assert_eq!(again, Err(AppError::Conflict));
    assert_eq!(store.len(), 1);
}

#[test]
fn padded_email_is_the_same_guest() {
    let mut store = RecordStore::new();
    submit(&mut store, submission("Bob", "bob@x.com", "yes"), 1).unwrap();
    let again = submit(&mut store, submission("\tBob", " bob@x.com\n", "no"), 2);
    assert_eq!(again, Err(AppError::Conflict));
    assert_eq!(store.list_all(), Ok(vec![record(1, "Bob", "bob@x.com", 1, true)]));
}

#[test]
fn submit_stores_trimmed_fields() {
    let mut store = RecordStore::new();
    let list = submit(&mut store, submission("  Bob\u{00A0}", "\nbob@x.com ", "no"), 5).unwrap();
    assert_eq!(list, vec![record(1, "Bob", "bob@x.com", 5, false)]);
}

#[test]
fn other_attending_tokens_do_not_touch_the_store() {
    let mut store = RecordStore::new();
    submit(&mut store, submission("Alice", "a@x.com", "yes"), 1).unwrap();
    for token in ["Y", "", "true"] {
        let out = submit(&mut store, submission("Bob", "b@x.com", token), 2);
        assert_eq!(out, Err(AppError::Invalid(ValidationError::InvalidAttendingValue)));
        assert_eq!(store.len(), 1);
    }
    assert_eq!(store.list_all(), Ok(vec![record(1, "Alice", "a@x.com", 1, true)]));
}

#[test]
fn empty_fields_do_not_touch_the_store() {
    let mut store = RecordStore::new();
    let out = submit(&mut store, submission("  ", "a@x.com", "yes"), 1);
    assert_eq!(out, Err(AppError::Invalid(ValidationError::EmptyField)));
    let out = submit(&mut store, submission("Alice", "", "no"), 1);
    assert_eq!(out, Err(AppError::Invalid(ValidationError::EmptyField)));
    assert_eq!(store.len(), 0);
}

#[test]
fn a_rejected_submission_does_not_use_up_an_id() {
    let mut store = RecordStore::new();
    submit(&mut store, submission("Alice", "a@x.com", "yes"), 1).unwrap();
    let _ = submit(&mut store, submission("Alice", "a@x.com", "no"), 2);
    let _ = submit(&mut store, submission("Bob", "b@x.com", "perhaps"), 3);
    let list = submit(&mut store, submission("Bob", "b@x.com", "no"), 4).unwrap();
    assert_eq!(list[1].id, 2);
}

#[test]
fn submit_is_unavailable_when_ids_run_out() {
    let mut store =
        RecordStore::from_records(vec![record(i64::MAX, "Alice", "a@x.com", 1, true)]).unwrap();
    let out = submit(&mut store, submission("Bob", "b@x.com", "yes"), 2);
    assert_eq!(out, Err(AppError::Unavailable));
    assert_eq!(store.len(), 1);
}

#[test]
fn step_validates_first() {
    let out = step(Phase::Start, Event::Submitted(submission(" Bob ", "b@x.com", "no")));
    assert_eq!(
        out,
        (
            Phase::Inserting,
            Action::Insert(ValidatedRsvp {
                name: "Bob".to_string(),
                email: "b@x.com".to_string(),
                attending: false
            })
        )
    );
}

#[test]
fn step_ends_on_invalid_submission_without_asking_the_store() {
    let out = step(Phase::Start, Event::Submitted(submission("Bob", "b@x.com", "true")));
    assert_eq!(
        out,
        (
            Phase::Finished,
            Action::Finish(Err(AppError::Invalid(ValidationError::InvalidAttendingValue)))
        )
    );
    let out = step(Phase::Start, Event::Submitted(submission("", "b@x.com", "yes")));
    assert_eq!(
        out,
        (Phase::Finished, Action::Finish(Err(AppError::Invalid(ValidationError::EmptyField))))
    );
}

#[test]
fn step_lists_after_a_successful_insert() {
    let out = step(Phase::Inserting, Event::Inserted(Ok(record(4, "Bob", "b@x.com", 9, true))));
    assert_eq!(out, (Phase::Listing, Action::ListAll));
}

#[test]
fn step_maps_a_duplicate_to_conflict() {
    let out = step(Phase::Inserting, Event::Inserted(Err(StoreError::DuplicateEntry)));
    assert_eq!(out, (Phase::Finished, Action::Finish(Err(AppError::Conflict))));
}

#[test]
fn step_maps_a_storage_failure_to_unavailable() {
    let out = step(Phase::Inserting, Event::Inserted(Err(StoreError::StorageFailure)));
    assert_eq!(out, (Phase::Finished, Action::Finish(Err(AppError::Unavailable))));
}

#[test]
fn step_hands_out_the_listing() {
    let list = vec![record(1, "A", "a@x.com", 1, true), record(2, "B", "b@x.com", 2, false)];
    let out = step(Phase::Listing, Event::Listed(Ok(list.clone())));
    assert_eq!(out, (Phase::Finished, Action::Finish(Ok(list))));
}

#[test]
fn step_reports_a_failed_listing_though_the_record_was_written() {
    for e in [StoreError::StorageFailure, StoreError::DuplicateEntry] {
        let out = step(Phase::Listing, Event::Listed(Err(e)));
        assert_eq!(out, (Phase::Finished, Action::Finish(Err(AppError::Unavailable))));
    }
}

#[test]
fn step_ends_on_an_event_that_was_not_asked_for() {
    let unavailable = (Phase::Finished, Action::Finish(Err(AppError::Unavailable)));
    assert_eq!(step(Phase::Start, Event::Listed(Ok(vec![]))), unavailable);
    assert_eq!(
        step(Phase::Start, Event::Inserted(Ok(record(1, "A", "a@x.com", 1, true)))),
        unavailable
    );
    assert_eq!(
        step(Phase::Inserting, Event::Submitted(submission("A", "a@x.com", "yes"))),
        unavailable
    );
    assert_eq!(step(Phase::Inserting, Event::Listed(Ok(vec![]))), unavailable);
    assert_eq!(
        step(Phase::Listing, Event::Inserted(Err(StoreError::DuplicateEntry))),
        unavailable
    );
    assert_eq!(
        step(Phase::Finished, Event::Submitted(submission("A", "a@x.com", "yes"))),
        unavailable
    );
    assert_eq!(step(Phase::Finished, Event::Listed(Ok(vec![]))), unavailable);
}

#[test]
fn driving_the_steps_by_hand_gives_what_submit_gives() {
    let cases = [
        ("Alice", "a@x.com", "yes"),
        ("Alice", "a@x.com", "no"),
        (" Bob", "b@x.com ", "no"),
        ("Carol", "c@x.com", "maybe"),
        ("", "d@x.com", "yes"),
    ];
    let mut direct = RecordStore::new();
    let mut driven = RecordStore::new();
    for (name, email, attending) in cases {
        let expected = submit(&mut direct, submission(name, email, attending), 7);
        let mut phase = Phase::Start;
        let mut event = Event::Submitted(submission(name, email, attending));
        let got = loop {
            let (next, action) = step(phase, event);
            phase = next;
            event = match action {
                Action::Insert(v) => Event::Inserted(driven.insert(v.name, v.email, v.attending, 7)),
                Action::ListAll => Event::Listed(driven.list_all()),
                Action::Finish(result) => break result,
            };
        };
        assert_eq!(phase, Phase::Finished);
        assert_eq!(got, expected);
        assert_eq!(driven.list_all(), direct.list_all());
    }
}
