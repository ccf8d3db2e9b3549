//! What the store's answers to the operations on file records mean.

use vstd::prelude::*;

verus! {

/// The store of file records, known by the name of its database.
#[derive(Debug, Clone, PartialEq, Eq)]
pub struct MediafilesDbService {
    pub db_name: String,
}

/// How the insertion of a record ends, once its row and the row that ties
/// it to its link are written.
#[derive(Debug, Clone, Copy, PartialEq, Eq)]
pub struct InsertOutcome {
    /// Whether both rows are committed; else both are dropped.
    pub commit: bool,
    pub message: &'static str,
}

impl MediafilesDbService {
    /// The store in the database `db_name`.
    pub fn new(db_name: String) -> (service: Self)
        ensures
            service.db_name == db_name,
    {
        MediafilesDbService { db_name }
    }

    /// The end of an insertion whose tie to the link changed `changes` rows:
    /// record and tie are committed together where exactly one tie was
    /// written, and dropped together otherwise.
    pub fn create_one(&self, changes: usize) -> (outcome: InsertOutcome)
        ensures
            outcome.commit == (changes == 1),
            outcome.message@ == if changes == 1 {
                "One mediafile created"@
            } else {
                "No mediafile created"@
            },
    {
        if changes == 1 {
            InsertOutcome { commit: true, message: "One mediafile created" }
        } else {
            InsertOutcome { commit: false, message: "No mediafile created" }
        }
    }

    /// The report of a removal that changed `changes` rows.
    pub fn remove(&self, changes: usize) -> (message: &'static str)
        ensures
            message@ == if changes == 1 {
                "One mediafile removed"@
            } else {
                "No mediafile removed"@
            },
    {
        if changes == 1 {
            "One mediafile removed"
        } else {
            "No mediafile removed"
        }
    }
}

} // verus!
