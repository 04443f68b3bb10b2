//! The record store: a table of RSVP records in which no two records share
//! both name and email.

use crate::record::{clone_records, listing_view, record_views, RecordView, RsvpRecord};
use crate::text::same_text;
use vstd::prelude::*;

verus! {

/// Why the store turned an operation down.
#[derive(Clone, Copy, Debug, PartialEq, Eq, Structural)]
pub enum StoreError {
    /// A record with the same name and email is already there.
    DuplicateEntry,
    /// The store could not do the operation for any other reason.
    StorageFailure,
}

/// Whether `table` holds a record with this name and this email.
pub open spec fn table_holds(table: Seq<RecordView>, name: Seq<char>, email: Seq<char>) -> bool {
    exists|i: int|
        0 <= i < table.len() && (#[trigger] table[i]).name == name && table[i].email == email
}

/// A table as the store keeps it: ids are positive and grow with the
/// position, and no two records share both name and email.
pub open spec fn table_wf(table: Seq<RecordView>) -> bool {
    &&& forall|i: int| 0 <= i < table.len() ==> 1 <= (#[trigger] table[i]).id
    &&& forall|i: int, j: int|
        0 <= i < j < table.len() ==> (#[trigger] table[i]).id < (#[trigger] table[j]).id
    &&& forall|i: int, j: int|
        0 <= i < j < table.len() ==> !((#[trigger] table[i]).name == (#[trigger] table[j]).name
            && table[i].email == table[j].email)
}

/// The id that the next record gets: one more than the newest record's, and
/// 1 in an empty table.
pub open spec fn next_id(table: Seq<RecordView>) -> int {
    if table.len() == 0 {
        1
    } else {
        table.last().id + 1
    }
}

/// What an insert does to a table and what it answers. The check for an
/// existing record and the append are one step: a duplicate leaves the table
/// as it was, and so does running out of ids.
pub open spec fn insert_model(
    table: Seq<RecordView>,
    name: Seq<char>,
    email: Seq<char>,
    attending: bool,
    now: int,
) -> (Seq<RecordView>, Result<RecordView, StoreError>) {
    if table_holds(table, name, email) {
        (table, Err(StoreError::DuplicateEntry))
    } else if next_id(table) > i64::MAX {
        (table, Err(StoreError::StorageFailure))
    } else {
        let record = RecordView { id: next_id(table), name, email, timestamp: now, attending };
        (table.push(record), Ok(record))
    }
}

/// An insert keeps the table well-formed and never touches a record that is
/// already there; a new record goes to the end, under an id above all others.
pub proof fn lemma_insert_appends(
    table: Seq<RecordView>,
    name: Seq<char>,
    email: Seq<char>,
    attending: bool,
    now: int,
)
    requires
        table_wf(table),
    ensures
        ({
            let (after, answer) = insert_model(table, name, email, attending, now);
            &&& table_wf(after)
            &&& after.take(table.len() as int) == table
            &&& answer is Err ==> after == table
            &&& answer matches Ok(record) ==> {
                &&& after == table.push(record)
                &&& record.name == name
                &&& record.email == email
                &&& record.attending == attending
                &&& record.timestamp == now
                &&& forall|i: int| 0 <= i < table.len() ==> (#[trigger] table[i]).id < record.id
            }
        }),
{
    let (after, answer) = insert_model(table, name, email, attending, now);
    if answer is Ok {
        let record = answer->Ok_0;
        assert(after.take(table.len() as int) =~= table);
        assert forall|i: int| 0 <= i < table.len() implies (#[trigger] table[i]).id
            < record.id by {
            if i < table.len() - 1 {
                assert(table[i].id < table[table.len() - 1].id);
            }
        }
        assert forall|i: int, j: int| 0 <= i < j < after.len() implies !((#[trigger] after[i]).name
            == (#[trigger] after[j]).name && after[i].email == after[j].email) by {
            if j == table.len() {
                assert(after[i] == table[i]);
            }
        }
    } else {
        assert(after.take(table.len() as int) =~= table);
    }
}

/// What a listing does to a table and what it answers: the table stays as
/// it is, and the answer is all of it, oldest record first.
pub open spec fn list_all_model(table: Seq<RecordView>) -> (
    Seq<RecordView>,
    Result<Seq<RecordView>, StoreError>,
) {
    (table, Ok(table))
}

/// Listing is repeatable: with no insert in between, a second listing answers
/// what the first answered, record for record and in the same order, which
/// is the order of the ids.
pub proof fn lemma_listing_repeats(table: Seq<RecordView>)
    requires
        table_wf(table),
    ensures
        ({
            let (kept, first) = list_all_model(table);
            let (kept_again, second) = list_all_model(kept);
            &&& kept == table
            &&& kept_again == table
            &&& second == first
            &&& first matches Ok(listing) && listing == table && forall|i: int, j: int|
                0 <= i < j < listing.len() ==> (#[trigger] listing[i]).id < (
                #[trigger] listing[j]).id
        }),
{
}

/// An in-memory record store.
pub struct RecordStore {
    records: Vec<RsvpRecord>,
}

impl View for RecordStore {
    type V = Seq<RecordView>;

    closed spec fn view(&self) -> Seq<RecordView> {
        record_views(self.records@)
    }
}

impl RecordStore {
    /// The store's invariant: its table is well-formed.
    pub open spec fn wf(&self) -> bool {
        table_wf(self@)
    }

    /// An empty store.
    pub fn new() -> (store: Self)
        ensures
            store.wf(),
            store@ == Seq::<RecordView>::empty(),
    {
        let store = RecordStore { records: Vec::new() };
        assert(store@ =~= Seq::<RecordView>::empty());
        store
    }

    /// A store that holds the records given, in their order, if they make a
    /// well-formed table; nothing otherwise.
    pub fn from_records(records: Vec<RsvpRecord>) -> (out: Option<Self>)
        ensures
            out is Some <==> table_wf(record_views(records@)),
            out matches Some(store) ==> store.wf() && store@ == record_views(records@),
    {
        let ghost table = record_views(records@);
        let mut j: usize = 0;
        while j < records.len()
            invariant
                j <= records.len(),
                table == record_views(records@),
                table_wf(table.take(j as int)),
            decreases records.len() - j,
        {
            if records[j].id < 1 {
                assert(table[j as int].id < 1);
                return None;
            }
            if j > 0 && records[j - 1].id >= records[j].id {
                assert(table[j - 1].id >= table[j as int].id);
                return None;
            }
            let mut i: usize = 0;
            while i < j
                invariant
                    i <= j < records.len(),
                    table == record_views(records@),
                    forall|k: int|
                        0 <= k < i ==> !((#[trigger] table[k]).name == table[j as int].name
                            && table[k].email == table[j as int].email),
                decreases j - i,
            {
                if records[i].name == records[j].name && records[i].email == records[j].email {
                    assert(table[i as int].name == table[j as int].name && table[i as int].email
                        == table[j as int].email);
                    return None;
                }
                i = i + 1;
            }
            proof {
                let shorter = table.take(j as int);
                let longer = table.take(j + 1);
                assert forall|a: int, b: int| 0 <= a < b < longer.len() implies (
                #[trigger] longer[a]).id < (#[trigger] longer[b]).id by {
                    if b < j {
                        assert(shorter[a].id < shorter[b].id);
                    } else if a < j - 1 {
                        assert(shorter[a].id < shorter[j - 1].id);
                    }
                }
                assert forall|a: int, b: int| 0 <= a < b < longer.len() implies !((
                #[trigger] longer[a]).name == (#[trigger] longer[b]).name && longer[a].email
                    == longer[b].email) by {
                    if b < j {
                        assert(!(shorter[a].name == shorter[b].name && shorter[a].email
                            == shorter[b].email));
                    }
                }
                assert forall|a: int| 0 <= a < longer.len() implies 1 <= (#[trigger] longer[a]).id by {
                    if a < j {
                        assert(1 <= shorter[a].id);
                    }
                }
            }
            j = j + 1;
        }
        assert(table.take(records.len() as int) =~= table);
        Some(RecordStore { records })
    }

    /// The number of records.
    pub fn len(&self) -> (n: usize)
        ensures
            n == self@.len(),
    {
        self.records.len()
    }

    /// Whether a record with this name and this email is in the store.
    pub fn contains(&self, name: &str, email: &str) -> (found: bool)
        ensures
            found == table_holds(self@, name@, email@),
    {
        let mut i: usize = 0;
        while i < self.records.len()
            invariant
                i <= self.records.len(),
                forall|k: int|
                    0 <= k < i ==> !((#[trigger] self@[k]).name == name@ && self@[k].email
                        == email@),
            decreases self.records.len() - i,
        {
            if same_text(self.records[i].name.as_str(), name) && same_text(
                self.records[i].email.as_str(),
                email,
            ) {
                assert(self@[i as int].name == name@ && self@[i as int].email == email@);
                return true;
            }
            i = i + 1;
        }
        false
    }

    /// Adds a record for this name and email, unless one is there already.
    /// The store assigns the id; `now` becomes the record's timestamp.
    pub fn insert(&mut self, name: String, email: String, attending: bool, now: i64) -> (out:
        Result<RsvpRecord, StoreError>)
        requires
            old(self).wf(),
        ensures
            final(self).wf(),
            match out {
                Ok(record) => insert_model(old(self)@, name@, email@, attending, now as int) == (
                    final(self)@,
                    Ok::<RecordView, StoreError>(record@),
                ),
                Err(e) => insert_model(old(self)@, name@, email@, attending, now as int) == (
                    final(self)@,
                    Err::<RecordView, StoreError>(e),
                ),
            },
    {
        proof {
            lemma_insert_appends(self@, name@, email@, attending, now as int);
        }
        if self.contains(name.as_str(), email.as_str()) {
            return Err(StoreError::DuplicateEntry);
        }
        let n: usize = self.records.len();
        let id: i64 = if n == 0 {
            1
        } else {
            let newest: i64 = self.records[n - 1].id;
            assert(newest == self@.last().id);
            if newest == i64::MAX {
                return Err(StoreError::StorageFailure);
            }
            newest + 1
        };
        let record = RsvpRecord { id, name, email, timestamp: now, attending };
        let copy = record.clone();
        self.records.push(record);
        assert(self@ =~= old(self)@.push(record@));
        Ok(copy)
    }

    /// All records, oldest first.
    pub fn list_all(&self) -> (out: Result<Vec<RsvpRecord>, StoreError>)
        ensures
            (self@, listing_view(out)) == list_all_model(self@),
            out matches Ok(list) && list@.len() == self@.len(),
    {
        Ok(clone_records(&self.records))
    }
}

} // verus!
