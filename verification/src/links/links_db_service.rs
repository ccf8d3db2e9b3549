//! What the store's answers to the operations on links mean.

use crate::text::{decimal, decimal_text};
use vstd::prelude::*;

verus! {

/// The store of links, known by the name of its database.
#[derive(Debug, Clone, PartialEq, Eq)]
pub struct LinksDbService {
    pub db_name: String,
}

/// The report of tagging a link: `changes` is the number of rows changed.
pub open spec fn tagged_text(changes: usize, is_reachable: bool) -> Seq<char> {
    if changes == 1 {
        if is_reachable {
            "One path tagged as reachable"@
        } else {
            "One path tagged as unreachable"@
        }
    } else {
        "No path tagged"@
    }
}

/// The report of marking `link_id` as a duplicate of `duplicate_id`:
/// `changes` is the number of rows changed.
pub open spec fn duplicate_text(changes: usize, link_id: usize, duplicate_id: usize) -> Seq<char> {
    if changes == 1 {
        "Link id "@ + decimal(link_id as nat) + " tagged as duplicate of "@ + decimal(
            duplicate_id as nat,
        )
    } else {
        "No path tagged"@
    }
}

impl LinksDbService {
    /// The store in the database `db_name`.
    pub fn new(db_name: String) -> (service: Self)
        ensures
            service.db_name == db_name,
    {
        LinksDbService { db_name }
    }

    /// The report of an insertion that changed `changes` rows.
    pub fn create_one(&self, changes: usize) -> (message: &'static str)
        ensures
            message@ == if changes == 1 {
                "One path created"@
            } else {
                "No path created"@
            },
    {
        if changes == 1 {
            "One path created"
        } else {
            "No path created"
        }
    }

    /// The report of a removal that changed `changes` rows.
    pub fn remove(&self, changes: usize) -> (message: &'static str)
        ensures
            message@ == if changes == 1 {
                "One path removed"@
            } else {
                "No path removed"@
            },
    {
        if changes == 1 {
            "One path removed"
        } else {
            "No path removed"
        }
    }

    /// The report of tagging a link as reachable or not.
    pub fn tag_unreachable(&self, changes: usize, is_reachable: bool) -> (message: String)
        ensures
            message@ == tagged_text(changes, is_reachable),
    {
        if changes == 1 {
            if is_reachable {
                String::from_str("One path tagged as reachable")
            } else {
                String::from_str("One path tagged as unreachable")
            }
        } else {
            String::from_str("No path tagged")
        }
    }

    /// The report of marking one link as a duplicate of another.
    pub fn add_duplicate(&self, changes: usize, link_id: usize, duplicate_id: usize) -> (message: String)
        ensures
            message@ == duplicate_text(changes, link_id, duplicate_id),
    {
        if changes == 1 {
            let mut message = String::from_str("Link id ");
            message.append(decimal_text(link_id).as_str());
            message.append(" tagged as duplicate of ");
            message.append(decimal_text(duplicate_id).as_str());
            message
        } else {
            String::from_str("No path tagged")
        }
    }

    /// The report of setting a link's counters.
    pub fn update_files_number(&self, changes: usize) -> (message: String)
        ensures
            message@ == if changes == 1 {
                "One path updated"@
            } else {
                "No path updated"@
            },
    {
        if changes == 1 {
            String::from_str("One path updated")
        } else {
            String::from_str("No path updated")
        }
    }
}

} // verus!
