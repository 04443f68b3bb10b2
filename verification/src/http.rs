//! What the front door answers: status, content type and body of the
//! response for each outcome of a request.

use crate::error::{message_of, status_of, AppError};
use crate::record::{listing_view, RecordView, RsvpRecord};
use crate::render::{list_markup, page_markup, render_list, render_page};
use crate::store::StoreError;
use vstd::prelude::*;

verus! {

/// The kind of body that a response carries.
#[derive(Clone, Copy, Debug, PartialEq, Eq, Structural)]
pub enum ContentType {
    /// Markup: a page or a fragment.
    Html,
    /// A plain message.
    PlainText,
}

/// The `Content-Type` header for markup.
pub const HTML_MIME: &'static str = "text/html; charset=utf-8";

/// The `Content-Type` header for a plain message.
pub const PLAIN_TEXT_MIME: &'static str = "text/plain; charset=utf-8";

impl ContentType {
    /// The value of the `Content-Type` header.
    pub fn mime(&self) -> (value: &'static str)
        ensures
            value@ == (match *self {
                ContentType::Html => HTML_MIME@,
                ContentType::PlainText => PLAIN_TEXT_MIME@,
            }),
    {
        match self {
            ContentType::Html => HTML_MIME,
            ContentType::PlainText => PLAIN_TEXT_MIME,
        }
    }
}

/// A response in plain values.
#[derive(Debug, PartialEq, Eq)]
pub struct HttpReply {
    pub status: u16,
    pub content_type: ContentType,
    pub body: String,
}

/// The content of a response.
pub struct ReplyView {
    pub status: u16,
    pub content_type: ContentType,
    pub body: Seq<char>,
}

impl View for HttpReply {
    type V = ReplyView;

    open spec fn view(&self) -> ReplyView {
        ReplyView { status: self.status, content_type: self.content_type, body: self.body@ }
    }
}

/// The response for an error: its status, and its message as plain text.
pub open spec fn error_reply_model(error: AppError) -> ReplyView {
    ReplyView {
        status: status_of(error),
        content_type: ContentType::PlainText,
        body: message_of(error),
    }
}

/// The response to a submission: 200 with the refreshed list fragment, or
/// the error's response.
pub open spec fn submit_reply_model(outcome: Result<Seq<RecordView>, AppError>) -> ReplyView {
    match outcome {
        Ok(records) => ReplyView {
            status: 200,
            content_type: ContentType::Html,
            body: list_markup(records),
        },
        Err(error) => error_reply_model(error),
    }
}

/// The response to a request for the page: 200 with the page around the
/// current list, or the response for an unavailable service where the store
/// could not list.
pub open spec fn index_reply_model(listed: Result<Seq<RecordView>, StoreError>) -> ReplyView {
    match listed {
        Ok(records) => ReplyView {
            status: 200,
            content_type: ContentType::Html,
            body: page_markup(records),
        },
        Err(_) => error_reply_model(AppError::Unavailable),
    }
}

impl AppError {
    /// The response that reports this error.
    pub fn into_reply(self) -> (reply: HttpReply)
        ensures
            reply@ == error_reply_model(self),
    {
        HttpReply {
            status: self.status_code(),
            content_type: ContentType::PlainText,
            body: self.message(),
        }
    }
}

/// The response to a submission, from what the service returned.
pub fn submit_reply(outcome: &Result<Vec<RsvpRecord>, AppError>) -> (reply: HttpReply)
    ensures
        reply@ == submit_reply_model(listing_view(*outcome)),
{
    match outcome {
        Ok(records) => HttpReply {
            status: 200,
            content_type: ContentType::Html,
            body: render_list(records),
        },
        Err(error) => error.into_reply(),
    }
}

/// The response to a request for the page, from what the store listed.
pub fn index_reply(listed: &Result<Vec<RsvpRecord>, StoreError>) -> (reply: HttpReply)
    ensures
        reply@ == index_reply_model(listing_view(*listed)),
{
    match listed {
        Ok(records) => HttpReply {
            status: 200,
            content_type: ContentType::Html,
            body: render_page(records),
        },
        Err(_) => AppError::Unavailable.into_reply(),
    }
}

} // verus!
