//! What holds of the service whatever is submitted: fresh guests are added
//! one by one, a guest is never recorded twice, whitespace around a name
//! makes no new guest, and a bad answer changes nothing.

use crate::error::AppError;
use crate::record::RecordView;
use crate::service::{lemma_submit_appends_or_keeps, submit_model};
use crate::store::{next_id, table_holds, table_wf};
use crate::text::{all_whitespace, lemma_trimmed_ignores_padding, trimmed};
use crate::validate::{
    attending_flag, is_normal, lemma_validated_is_normal, validate_model, SubmissionView,
    ValidatedView, ValidationError,
};
use vstd::prelude::*;

verus! {

/// Whether every record of `table` has a normalised name and email.
pub open spec fn records_normal(table: Seq<RecordView>) -> bool {
    forall|i: int|
        0 <= i < table.len() ==> is_normal((#[trigger] table[i]).name) && is_normal(table[i].email)
}

/// Submissions keep the records normalised: a table in which every name and
/// email is trimmed and not empty is such a table after any submission.
pub proof fn lemma_submit_keeps_records_normal(
    table: Seq<RecordView>,
    raw: SubmissionView,
    now: int,
)
    requires
        table_wf(table),
        records_normal(table),
    ensures
        records_normal(submit_model(table, raw, now).0),
{
    lemma_submit_appends_or_keeps(table, raw, now);
    lemma_validated_is_normal(raw);
    let after = submit_model(table, raw, now).0;
    assert forall|i: int| 0 <= i < after.len() implies is_normal((#[trigger] after[i]).name)
        && is_normal(after[i].email) by {
        if submit_model(table, raw, now).1 is Ok && i < table.len() {
            assert(after[i] == after.drop_last()[i]);
        }
    }
}

/// A valid submission under a name and email that the table does not hold
/// is accepted, and the listing returned is longer by exactly one than the
/// table was. (Ids are 64-bit: the table's newest id must leave room for one
/// more.)
pub proof fn lemma_fresh_submission_adds_one(table: Seq<RecordView>, raw: SubmissionView, now: int)
    requires
        table_wf(table),
        validate_model(raw) is Ok,
        !table_holds(table, trimmed(raw.name), trimmed(raw.email)),
        next_id(table) <= i64::MAX,
    ensures
        submit_model(table, raw, now).1 matches Ok(listing) && listing.len() == table.len() + 1,
{
    lemma_submit_appends_or_keeps(table, raw, now);
}

/// Once a submission was accepted, a valid submission under the same name and
/// email, compared after trimming, is a conflict, and the table stays as the
/// first submission left it. A submission repeated as it is is the plainest
/// case.
pub proof fn lemma_same_key_conflicts(
    table: Seq<RecordView>,
    first: SubmissionView,
    now: int,
    second: SubmissionView,
    later: int,
)
    requires
        table_wf(table),
        submit_model(table, first, now).1 is Ok,
        trimmed(second.name) == trimmed(first.name),
        trimmed(second.email) == trimmed(first.email),
        attending_flag(second.attending) is Some,
    ensures
        ({
            let after = submit_model(table, first, now).0;
            submit_model(after, second, later) == (
                after,
                Err::<Seq<RecordView>, AppError>(AppError::Conflict),
            )
        }),
{
    lemma_submit_appends_or_keeps(table, first, now);
    let after = submit_model(table, first, now).0;
    let newest = after.len() - 1;
    assert(after[newest].name == trimmed(second.name) && after[newest].email == trimmed(
        second.email,
    ));
}

/// The table after the submissions of `batch` went to `table` one after the
/// other, the submission at each position with the timestamp at the same
/// position of `times`.
pub open spec fn table_after(
    table: Seq<RecordView>,
    batch: Seq<SubmissionView>,
    times: Seq<int>,
) -> Seq<RecordView>
    recommends
        times.len() == batch.len(),
    decreases batch.len(),
{
    if batch.len() == 0 {
        table
    } else {
        submit_model(
            table_after(table, batch.drop_last(), times.drop_last()),
            batch.last(),
            times.last(),
        ).0
    }
}

/// Whether two submissions differ in name or in email once trimmed.
pub open spec fn keys_differ(a: SubmissionView, b: SubmissionView) -> bool {
    trimmed(a.name) != trimmed(b.name) || trimmed(a.email) != trimmed(b.email)
}

/// Whether the submissions of `batch` are valid, differ from one another in
/// name or email, and are new to `table`.
pub open spec fn fresh_batch(table: Seq<RecordView>, batch: Seq<SubmissionView>) -> bool {
    &&& forall|i: int| 0 <= i < batch.len() ==> validate_model(#[trigger] batch[i]) is Ok
    &&& forall|i: int|
        0 <= i < batch.len() ==> !table_holds(
            table,
            trimmed((#[trigger] batch[i]).name),
            trimmed(batch[i].email),
        )
    &&& forall|i: int, j: int|
        0 <= i < j < batch.len() ==> keys_differ(#[trigger] batch[i], #[trigger] batch[j])
}

/// What a batch of fresh submissions leaves: a well-formed table that is
/// longer by the size of the batch, whose next id moved on by as much, and
/// that holds a name and email exactly where the table before held them or a
/// submission of the batch brought them.
proof fn lemma_table_after_fresh_batch(
    table: Seq<RecordView>,
    batch: Seq<SubmissionView>,
    times: Seq<int>,
)
    requires
        table_wf(table),
        times.len() == batch.len(),
        fresh_batch(table, batch),
        next_id(table) + batch.len() <= i64::MAX + 1,
    ensures
        table_wf(table_after(table, batch, times)),
        table_after(table, batch, times).len() == table.len() + batch.len(),
        next_id(table_after(table, batch, times)) == next_id(table) + batch.len(),
        forall|name: Seq<char>, email: Seq<char>|
            #[trigger] table_holds(table_after(table, batch, times), name, email) ==> table_holds(
                table,
                name,
                email,
            ) || exists|i: int|
                0 <= i < batch.len() && trimmed((#[trigger] batch[i]).name) == name && trimmed(
                    batch[i].email,
                ) == email,
    decreases batch.len(),
{
    if batch.len() > 0 {
        let front = batch.drop_last();
        let earlier = table_after(table, front, times.drop_last());
        let after = table_after(table, batch, times);
        assert forall|i: int| 0 <= i < front.len() implies validate_model(
            #[trigger] front[i],
        ) is Ok && !table_holds(table, trimmed(front[i].name), trimmed(front[i].email)) by {
            assert(front[i] == batch[i]);
        }
        assert forall|i: int, j: int| 0 <= i < j < front.len() implies keys_differ(
            #[trigger] front[i],
            #[trigger] front[j],
        ) by {
            assert(front[i] == batch[i] && front[j] == batch[j]);
        }
        lemma_table_after_fresh_batch(table, front, times.drop_last());
        let last = batch.len() - 1;
        let raw = batch[last];
        if table_holds(earlier, trimmed(raw.name), trimmed(raw.email)) {
            let i = choose|i: int|
                0 <= i < front.len() && trimmed((#[trigger] front[i]).name) == trimmed(raw.name)
                    && trimmed(front[i].email) == trimmed(raw.email);
            assert(front[i] == batch[i]);
            assert(keys_differ(batch[i], batch[last]));
        }
        lemma_submit_appends_or_keeps(earlier, raw, times.last());
        assert(after.drop_last() == earlier);
        assert forall|name: Seq<char>, email: Seq<char>| #[trigger]
            table_holds(after, name, email) implies table_holds(table, name, email) || exists|
            i: int,
        |
            0 <= i < batch.len() && trimmed((#[trigger] batch[i]).name) == name && trimmed(
                batch[i].email,
            ) == email by {
            let k = choose|k: int|
                0 <= k < after.len() && (#[trigger] after[k]).name == name && after[k].email
                    == email;
            if k < earlier.len() {
                assert(after[k] == earlier[k]);
                assert(table_holds(earlier, name, email));
                if !table_holds(table, name, email) {
                    let i = choose|i: int|
                        0 <= i < front.len() && trimmed((#[trigger] front[i]).name) == name
                            && trimmed(front[i].email) == email;
                    assert(front[i] == batch[i]);
                }
            } else {
                assert(trimmed(batch[last].name) == name && trimmed(batch[last].email) == email);
            }
        }
    }
}

/// Valid submissions that differ from one another in name or email, and are
/// new to the table, are accepted one after the other, and each listing
/// returned is longer by exactly one than the one before it. (Ids are 64-bit:
/// the table's newest id must leave room for the batch.)
pub proof fn lemma_distinct_submissions_succeed(
    table: Seq<RecordView>,
    batch: Seq<SubmissionView>,
    times: Seq<int>,
    k: int,
)
    requires
        table_wf(table),
        times.len() == batch.len(),
        fresh_batch(table, batch),
        next_id(table) + batch.len() <= i64::MAX + 1,
        0 <= k < batch.len(),
    ensures
        submit_model(table_after(table, batch.take(k), times.take(k)), batch[k], times[k]).1
            matches Ok(listing) && listing.len() == table.len() + k + 1,
        table_after(table, batch, times).len() == table.len() + batch.len(),
{
    let front = batch.take(k);
    let earlier = table_after(table, front, times.take(k));
    assert forall|i: int| 0 <= i < front.len() implies validate_model(#[trigger] front[i]) is Ok
        && !table_holds(table, trimmed(front[i].name), trimmed(front[i].email)) by {
        assert(front[i] == batch[i]);
    }
    assert forall|i: int, j: int| 0 <= i < j < front.len() implies keys_differ(
        #[trigger] front[i],
        #[trigger] front[j],
    ) by {
        assert(front[i] == batch[i] && front[j] == batch[j]);
    }
    lemma_table_after_fresh_batch(table, front, times.take(k));
    lemma_table_after_fresh_batch(table, batch, times);
    let raw = batch[k];
    if table_holds(earlier, trimmed(raw.name), trimmed(raw.email)) {
        let i = choose|i: int|
            0 <= i < front.len() && trimmed((#[trigger] front[i]).name) == trimmed(raw.name)
                && trimmed(front[i].email) == trimmed(raw.email);
        assert(front[i] == batch[i]);
        assert(keys_differ(batch[i], batch[k]));
    }
    lemma_fresh_submission_adds_one(earlier, raw, times[k]);
}

/// Whitespace around name and email does not count: a submission padded with
/// whitespace on any side of either field validates to what the bare one
/// validates to.
pub proof fn lemma_validate_ignores_padding(
    raw: SubmissionView,
    name_left: Seq<char>,
    name_right: Seq<char>,
    email_left: Seq<char>,
    email_right: Seq<char>,
)
    requires
        all_whitespace(name_left),
        all_whitespace(name_right),
        all_whitespace(email_left),
        all_whitespace(email_right),
    ensures
        validate_model(
            SubmissionView {
                name: name_left + raw.name + name_right,
                email: email_left + raw.email + email_right,
                attending: raw.attending,
            },
        ) == validate_model(raw),
{
    lemma_trimmed_ignores_padding(name_left, raw.name, name_right);
    lemma_trimmed_ignores_padding(email_left, raw.email, email_right);
}

/// An attendance answer other than `yes` and `no` is turned down as such,
/// whatever name and email say, and the table is not touched.
pub proof fn lemma_bad_answer_is_rejected(table: Seq<RecordView>, raw: SubmissionView, now: int)
    requires
        raw.attending != "yes"@,
        raw.attending != "no"@,
    ensures
        validate_model(raw) == Err::<ValidatedView, ValidationError>(
            ValidationError::InvalidAttendingValue,
        ),
        submit_model(table, raw, now) == (
            table,
            Err::<Seq<RecordView>, AppError>(
                AppError::Invalid(ValidationError::InvalidAttendingValue),
            ),
        ),
{
}

} // verus!
