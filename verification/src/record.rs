//! The persisted RSVP record and the table of records as a value.

use vstd::prelude::*;

verus! {

/// One guest's answer as the store keeps it.
#[derive(Debug, PartialEq, Eq)]
pub struct RsvpRecord {
    /// Assigned by the store, never reused.
    pub id: i64,
    pub name: String,
    pub email: String,
    /// When the store created the record.
    pub timestamp: i64,
    pub attending: bool,
}

/// The content of a record.
pub struct RecordView {
    pub id: int,
    pub name: Seq<char>,
    pub email: Seq<char>,
    pub timestamp: int,
    pub attending: bool,
}

impl View for RsvpRecord {
    type V = RecordView;

    open spec fn view(&self) -> RecordView {
        RecordView {
            id: self.id as int,
            name: self.name@,
            email: self.email@,
            timestamp: self.timestamp as int,
            attending: self.attending,
        }
    }
}

impl Clone for RsvpRecord {
    fn clone(&self) -> (out: Self)
        ensures
            out == *self,
    {
        RsvpRecord {
            id: self.id,
            name: self.name.clone(),
            email: self.email.clone(),
            timestamp: self.timestamp,
            attending: self.attending,
        }
    }
}

/// The contents of a sequence of records, in the same order.
pub open spec fn record_views(records: Seq<RsvpRecord>) -> Seq<RecordView> {
    records.map_values(|r: RsvpRecord| r@)
}

/// The contents of a listing that came back, or the error that came instead.
pub open spec fn listing_view<E>(listing: Result<Vec<RsvpRecord>, E>) -> Result<
    Seq<RecordView>,
    E,
> {
    match listing {
        Ok(records) => Ok(record_views(records@)),
        Err(e) => Err(e),
    }
}

/// Copies a list of records.
pub fn clone_records(records: &Vec<RsvpRecord>) -> (out: Vec<RsvpRecord>)
    ensures
        out@ == records@,
{
    let mut out: Vec<RsvpRecord> = Vec::new();
    let mut i: usize = 0;
    while i < records.len()
        invariant
            i <= records.len(),
            out@ == records@.take(i as int),
        decreases records.len() - i,
    {
        out.push(records[i].clone());
        assert(records@.take(i + 1) =~= records@.take(i as int).push(records@[i as int]));
        i = i + 1;
    }
    assert(records@.take(records.len() as int) =~= records@);
    out
}

} // verus!
