use partifuller::error::{
    AppError, CONFLICT_MESSAGE, EMPTY_FIELD_MESSAGE, INVALID_ATTENDING_MESSAGE,
    UNAVAILABLE_MESSAGE,
};
use partifuller::http::{index_reply, submit_reply, ContentType, HttpReply};
use partifuller::record::RsvpRecord;
use partifuller::render::{render_list, render_page};
use partifuller::service::submit;
use partifuller::store::{RecordStore, StoreError};
use partifuller::validate::{RsvpSubmission, ValidationError};

fn submission(name: &str, email: &str, attending: &str) -> RsvpSubmission {
    RsvpSubmission {
        name: name.to_string(),
        email: email.to_string(),
        attending: attending.to_string(),
    }
}

fn record(id: i64, name: &str, email: &str, timestamp: i64, attending: bool) -> RsvpRecord {
    RsvpRecord { id, name: name.to_string(), email: email.to_string(), timestamp, attending }
}

#[test]
fn client_errors_are_400() {
    assert_eq!(AppError::Invalid(ValidationError::EmptyField).status_code(), 400);
    assert_eq!(AppError::Invalid(ValidationError::InvalidAttendingValue).status_code(), 400);
    assert_eq!(AppError::Conflict.status_code(), 400);
}

#[test]
fn infrastructure_errors_are_500() {
    assert_eq!(AppError::Unavailable.status_code(), 500);
}

#[test]
fn messages_are_specific() {
    assert_eq!(AppError::Conflict.message(), "Your name and email must be unique!");
    assert_eq!(
        AppError::Invalid(ValidationError::InvalidAttendingValue).message(),
        "Invalid attending value"
    );
    assert_eq!(
        AppError::Invalid(ValidationError::EmptyField).message(),
        "Name and email must not be empty"
    );
    assert_eq!(
        AppError::Unavailable.message(),
        "The service is unavailable, please try again later"
    );
}

#[test]
fn messages_are_the_named_constants() {
    assert_eq!(AppError::Conflict.message(), CONFLICT_MESSAGE);
    assert_eq!(AppError::Invalid(ValidationError::EmptyField).message(), EMPTY_FIELD_MESSAGE);
    assert_eq!(
        AppError::Invalid(ValidationError::InvalidAttendingValue).message(),
        INVALID_ATTENDING_MESSAGE
    );
    assert_eq!(AppError::Unavailable.message(), UNAVAILABLE_MESSAGE);
}

#[test]
fn from_insert_maps_store_errors() {
    assert_eq!(AppError::from_insert(StoreError::DuplicateEntry), AppError::Conflict);
    assert_eq!(AppError::from_insert(StoreError::StorageFailure), AppError::Unavailable);
}

#[test]
fn content_types() {
    assert_eq!(ContentType::Html.mime(), "text/html; charset=utf-8");
    assert_eq!(ContentType::PlainText.mime(), "text/plain; charset=utf-8");
}

#[test]
fn error_reply_is_plain_text_with_the_status() {
    assert_eq!(
        AppError::Conflict.into_reply(),
        HttpReply {
            status: 400,
            content_type: ContentType::PlainText,
            body: "Your name and email must be unique!".to_string()
        }
    );
    assert_eq!(
        AppError::Unavailable.into_reply(),
        HttpReply {
            status: 500,
            content_type: ContentType::PlainText,
            body: "The service is unavailable, please try again later".to_string()
        }
    );
}

#[test]
fn submit_reply_on_success_is_the_fragment() {
    let list = vec![record(1, "Alice", "a@x.com", 1, true)];
    let reply = submit_reply(&Ok(list));
    assert_eq!(
        reply,
        HttpReply {
            status: 200,
            content_type: ContentType::Html,
            body: "<ul id=\"rsvp-list\">\n<li>Alice: attending</li>\n</ul>\n".to_string()
        }
    );
}

#[test]
fn submit_reply_on_error_is_the_error_reply() {
    for e in [
        AppError::Invalid(ValidationError::EmptyField),
        AppError::Invalid(ValidationError::InvalidAttendingValue),
        AppError::Conflict,
        AppError::Unavailable,
    ] {
        assert_eq!(submit_reply(&Err(e)), e.into_reply());
    }
}

#[test]
fn index_reply_on_success_is_the_page() {
    let list = vec![record(1, "Alice", "a@x.com", 1, true), record(2, "Bob", "b@x.com", 2, false)];
    let reply = index_reply(&Ok(vec![list[0].clone(), list[1].clone()]));
    assert_eq!(reply.status, 200);
    assert_eq!(reply.content_type, ContentType::Html);
    assert_eq!(reply.body, render_page(&list));
    assert!(reply.body.contains(&render_list(&list)));
}

#[test]
fn index_reply_on_store_error_is_500_without_details() {
    for e in [StoreError::StorageFailure, StoreError::DuplicateEntry] {
        let reply = index_reply(&Err(e));
        assert_eq!(reply, AppError::Unavailable.into_reply());
        assert_eq!(reply.status, 500);
    }
}

#[test]
fn end_to_end_alice_then_alice_again() {
    let mut store = RecordStore::new();

    let first = submit(&mut store, submission("Alice", "a@x.com", "yes"), 1000);
    let reply = submit_reply(&first);
    assert_eq!(reply.status, 200);
    assert_eq!(reply.content_type, ContentType::Html);
    assert_eq!(reply.body, "<ul id=\"rsvp-list\">\n<li>Alice: attending</li>\n</ul>\n");
    let list = first.unwrap();
    assert_eq!(list.len(), 1);
    assert_eq!(list[0].name, "Alice");
    assert!(list[0].attending);

    let second = submit(&mut store, submission("Alice", "a@x.com", "no"), 2000);
    let reply = submit_reply(&second);
    assert_eq!(reply.status, 400);
    assert_eq!(reply.content_type, ContentType::PlainText);
    assert!(reply.body.contains("unique"));
    assert_eq!(second, Err(AppError::Conflict));

    let listing = store.list_all().unwrap();
    assert_eq!(listing, vec![record(1, "Alice", "a@x.com", 1000, true)]);
    let page = index_reply(&Ok(listing));
    assert!(page.body.contains("<li>Alice: attending</li>\n"));
    assert!(!page.body.contains("not attending"));
}
