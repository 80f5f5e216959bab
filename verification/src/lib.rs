pub mod aggregate;
pub mod config;
pub mod extract;
pub mod filter;
pub mod page;
pub mod report;
pub mod text;

use vstd::prelude::*;

verus! {

/// Mathematical model of an outage record: every field as its character
/// sequence.
#[verifier::ext_equal]
pub struct RecordModel {
    pub date: Seq<char>,
    pub location: Seq<char>,
    pub street: Seq<char>,
    pub time: Seq<char>,
    pub note: Seq<char>,
}

/// One scheduled power-interruption announcement. `date` carries the
/// page-level date label verbatim; `location` starts a record; the other
/// fields are optional and empty when absent.
pub struct OutageRecord {
    pub date: String,
    pub location: String,
    pub street: String,
    pub time: String,
    pub note: String,
}

impl View for OutageRecord {
    type V = RecordModel;

    open spec fn view(&self) -> RecordModel {
        RecordModel {
            date: self.date@,
            location: self.location@,
            street: self.street@,
            time: self.time@,
            note: self.note@,
        }
    }
}

impl DeepView for OutageRecord {
    type V = RecordModel;

    open spec fn deep_view(&self) -> RecordModel {
        self.view()
    }
}

impl OutageRecord {
    /// An exact copy of the record.
    pub fn duplicate(&self) -> (r: OutageRecord)
        ensures
            r@ == self@,
    {
        OutageRecord {
            date: self.date.clone(),
            location: self.location.clone(),
            street: self.street.clone(),
            time: self.time.clone(),
            note: self.note.clone(),
        }
    }
}

} // verus!
