//! The RSVP service: validate, insert, list again. The decisions are one
//! step function from phase and event to next phase and action, so that the
//! same rules serve a store in memory and a store behind a connection.

use crate::error::{insert_failure, AppError};
use crate::record::{listing_view, RecordView, RsvpRecord};
use crate::store::{
    insert_model, lemma_insert_appends, next_id, table_wf, RecordStore, StoreError,
};
use crate::text::trimmed;
use crate::validate::{
    attending_flag, validate, validate_model, RsvpSubmission, SubmissionView, ValidatedRsvp,
    ValidatedView,
};
use vstd::prelude::*;

verus! {

/// Where the handling of one submission stands.
#[derive(Clone, Copy, Debug, PartialEq, Eq, Structural)]
pub enum Phase {
    /// Nothing has happened yet.
    Start,
    /// An insert was asked of the store.
    Inserting,
    /// The insert succeeded and a listing was asked of the store.
    Listing,
    /// The result was handed out.
    Finished,
}

/// What happened: a submission came in, or the store answered.
#[derive(Debug, PartialEq, Eq)]
pub enum Event {
    Submitted(RsvpSubmission),
    Inserted(Result<RsvpRecord, StoreError>),
    Listed(Result<Vec<RsvpRecord>, StoreError>),
}

/// The content of an event.
pub enum EventView {
    Submitted(SubmissionView),
    Inserted(Result<RecordView, StoreError>),
    Listed(Result<Seq<RecordView>, StoreError>),
}

impl View for Event {
    type V = EventView;

    open spec fn view(&self) -> EventView {
        match *self {
            Event::Submitted(raw) => EventView::Submitted(raw@),
            Event::Inserted(Ok(record)) => EventView::Inserted(Ok(record@)),
            Event::Inserted(Err(e)) => EventView::Inserted(Err(e)),
            Event::Listed(listing) => EventView::Listed(listing_view(listing)),
        }
    }
}

/// What to do next: ask the store, or hand out the result.
#[derive(Debug, PartialEq, Eq)]
pub enum Action {
    Insert(ValidatedRsvp),
    ListAll,
    Finish(Result<Vec<RsvpRecord>, AppError>),
}

/// The content of an action.
pub enum ActionView {
    Insert(ValidatedView),
    ListAll,
    Finish(Result<Seq<RecordView>, AppError>),
}

impl View for Action {
    type V = ActionView;

    open spec fn view(&self) -> ActionView {
        match *self {
            Action::Insert(rsvp) => ActionView::Insert(rsvp@),
            Action::ListAll => ActionView::ListAll,
            Action::Finish(outcome) => ActionView::Finish(listing_view(outcome)),
        }
    }
}

/// The service's rules. A submission is validated before the store is asked
/// anything; a failed insert ends the exchange as a conflict or as
/// unavailable; a successful one is followed by a listing, and a listing that
/// fails ends the exchange as unavailable though the record was written. An
/// event that does not answer what was asked ends it as unavailable too.
pub open spec fn step_model(phase: Phase, event: EventView) -> (Phase, ActionView) {
    match (phase, event) {
        (Phase::Start, EventView::Submitted(raw)) => match validate_model(raw) {
            Ok(rsvp) => (Phase::Inserting, ActionView::Insert(rsvp)),
            Err(reason) => (Phase::Finished, ActionView::Finish(Err(AppError::Invalid(reason)))),
        },
        (Phase::Inserting, EventView::Inserted(Ok(_))) => (Phase::Listing, ActionView::ListAll),
        (Phase::Inserting, EventView::Inserted(Err(e))) => (
            Phase::Finished,
            ActionView::Finish(Err(insert_failure(e))),
        ),
        (Phase::Listing, EventView::Listed(Ok(records))) => (
            Phase::Finished,
            ActionView::Finish(Ok(records)),
        ),
        _ => (Phase::Finished, ActionView::Finish(Err(AppError::Unavailable))),
    }
}

/// One step of the service: from where it stands and what happened to where
/// it stands next and what to do.
pub fn step(phase: Phase, event: Event) -> (out: (Phase, Action))
    ensures
        (out.0, out.1@) == step_model(phase, event@),
{
    match (phase, event) {
        (Phase::Start, Event::Submitted(raw)) => match validate(&raw) {
            Ok(rsvp) => (Phase::Inserting, Action::Insert(rsvp)),
            Err(reason) => (Phase::Finished, Action::Finish(Err(AppError::Invalid(reason)))),
        },
        (Phase::Inserting, Event::Inserted(Ok(_))) => (Phase::Listing, Action::ListAll),
        (Phase::Inserting, Event::Inserted(Err(e))) => (
            Phase::Finished,
            Action::Finish(Err(AppError::from_insert(e))),
        ),
        (Phase::Listing, Event::Listed(Ok(records))) => (
            Phase::Finished,
            Action::Finish(Ok(records)),
        ),
        _ => (Phase::Finished, Action::Finish(Err(AppError::Unavailable))),
    }
}

/// What a submission does to a table and what the service returns for it:
/// the refreshed listing where the record went in, the table untouched and
/// the reason where it did not.
pub open spec fn submit_model(table: Seq<RecordView>, raw: SubmissionView, now: int) -> (
    Seq<RecordView>,
    Result<Seq<RecordView>, AppError>,
) {
    match validate_model(raw) {
        Err(reason) => (table, Err(AppError::Invalid(reason))),
        Ok(rsvp) => match insert_model(table, rsvp.name, rsvp.email, rsvp.attending, now) {
            (after, Ok(_)) => (after, Ok(after)),
            (_, Err(e)) => (table, Err(insert_failure(e))),
        },
    }
}

/// A submission that is turned down leaves the table as it was, whatever the
/// reason; one that is accepted appends one record, which holds the trimmed
/// name and email, and the listing returned is the table after it.
pub proof fn lemma_submit_appends_or_keeps(table: Seq<RecordView>, raw: SubmissionView, now: int)
    requires
        table_wf(table),
    ensures
        ({
            let (after, outcome) = submit_model(table, raw, now);
            &&& table_wf(after)
            &&& outcome is Err ==> after == table
            &&& outcome matches Ok(listing) ==> {
                &&& listing == after
                &&& after.len() == table.len() + 1
                &&& after.drop_last() == table
                &&& after.last().id == next_id(table)
                &&& after.last().name == trimmed(raw.name)
                &&& after.last().email == trimmed(raw.email)
                &&& after.last().timestamp == now
                &&& attending_flag(raw.attending) == Some(after.last().attending)
            }
        }),
{
    if validate_model(raw) is Ok {
        let rsvp = validate_model(raw)->Ok_0;
        lemma_insert_appends(table, rsvp.name, rsvp.email, rsvp.attending, now);
        let (after, answer) = insert_model(table, rsvp.name, rsvp.email, rsvp.attending, now);
        if answer is Ok {
            assert(after.drop_last() =~= table);
        }
    }
}

/// Driving `step_model` with the answers of a store that inserts as
/// `insert_model` says, and lists what it holds, ends in the outcome of
/// `submit_model`, after one step for a submission that fails validation, two
/// for a failed insert and three otherwise.
pub proof fn lemma_steps_make_submit(table: Seq<RecordView>, raw: SubmissionView, now: int)
    ensures
        ({
            let (after, outcome) = submit_model(table, raw, now);
            let first = step_model(Phase::Start, EventView::Submitted(raw));
            match first.1 {
                ActionView::Finish(result) => {
                    &&& first.0 == Phase::Finished
                    &&& result == outcome
                    &&& after == table
                },
                ActionView::Insert(rsvp) => {
                    let (stored, answer) = insert_model(
                        table,
                        rsvp.name,
                        rsvp.email,
                        rsvp.attending,
                        now,
                    );
                    let second = step_model(first.0, EventView::Inserted(answer));
                    match second.1 {
                        ActionView::Finish(result) => {
                            &&& second.0 == Phase::Finished
                            &&& result == outcome
                            &&& stored == table
                            &&& after == table
                        },
                        ActionView::ListAll => {
                            let third = step_model(second.0, EventView::Listed(Ok(stored)));
                            &&& third == (Phase::Finished, ActionView::Finish(outcome))
                            &&& after == stored
                        },
                        ActionView::Insert(_) => false,
                    }
                },
                ActionView::ListAll => false,
            }
        }),
{
}

/// What holds between two steps of `submit`: the store and the pending event
/// are what the rules make of the table before, the submission and the clock.
spec fn on_course(
    before: Seq<RecordView>,
    form: SubmissionView,
    now: int,
    phase: Phase,
    table: Seq<RecordView>,
    event: EventView,
) -> bool {
    match phase {
        Phase::Start => table == before && event == EventView::Submitted(form),
        Phase::Inserting => {
            &&& validate_model(form) matches Ok(rsvp)
            &&& insert_model(before, rsvp.name, rsvp.email, rsvp.attending, now).0 == table
            &&& event == EventView::Inserted(
                insert_model(before, rsvp.name, rsvp.email, rsvp.attending, now).1,
            )
        },
        Phase::Listing => {
            &&& validate_model(form) matches Ok(rsvp)
            &&& insert_model(before, rsvp.name, rsvp.email, rsvp.attending, now).0 == table
            &&& insert_model(before, rsvp.name, rsvp.email, rsvp.attending, now).1 is Ok
            &&& event == EventView::Listed(Ok(table))
        },
        Phase::Finished => false,
    }
}

/// The steps that are left from a phase, at most.
spec fn steps_left(phase: Phase) -> nat {
    match phase {
        Phase::Start => 3,
        Phase::Inserting => 2,
        Phase::Listing => 1,
        Phase::Finished => 0,
    }
}

/// Handles one submission against the store: validates it, inserts the
/// record with `now` as its timestamp, and returns the refreshed listing.
pub fn submit(store: &mut RecordStore, raw: RsvpSubmission, now: i64) -> (out: Result<
    Vec<RsvpRecord>,
    AppError,
>)
    requires
        old(store).wf(),
    ensures
        final(store).wf(),
        (final(store)@, listing_view(out)) == submit_model(old(store)@, raw@, now as int),
        out matches Ok(list) ==> list@.len() == old(store)@.len() + 1,
        out is Err ==> final(store)@ == old(store)@,
{
    let ghost before = store@;
    let ghost form = raw@;
    let mut phase = Phase::Start;
    let mut event = Event::Submitted(raw);
    loop
        invariant
            store.wf(),
            before == old(store)@,
            table_wf(before),
            form == raw@,
            on_course(before, form, now as int, phase, store@, event@),
        decreases steps_left(phase),
    {
        let (next, action) = step(phase, event);
        match action {
            Action::Insert(rsvp) => {
                event = Event::Inserted(store.insert(rsvp.name, rsvp.email, rsvp.attending, now));
            },
            Action::ListAll => {
                event = Event::Listed(store.list_all());
            },
            Action::Finish(outcome) => {
                proof {
                    lemma_submit_appends_or_keeps(before, form, now as int);
                }
                return outcome;
            },
        }
        phase = next;
    }
}

} // verus!
