//! The sentences in which the passes report what they did.

use crate::text::{decimal, decimal_text};
use vstd::prelude::*;

verus! {

/// The report of a download pass that brought in `count` files.
pub open spec fn downloaded_text(count: usize) -> Seq<char> {
    "Downloaded "@ + decimal(count as nat) + " files"@
}

/// The report of a reconciliation pass for the link `link_id`, whose
/// directory is `dir_path`: `dir_files` is the number of files in the
/// directory where it exists, `page_assets` the number of media elements on
/// the page where it can be reached.
pub open spec fn reconciliation_text(
    link_id: usize,
    dir_path: Seq<char>,
    dir_files: Option<usize>,
    page_assets: Option<usize>,
) -> Seq<char> {
    match (dir_files, page_assets) {
        (None, None) => dir_path + " does not exist and page not found"@,
        (Some(files), None) => if files > 0 {
            "id: "@ + decimal(link_id as nat)
                + ", Files detected in directory, download marked as complete"@
        } else {
            dir_path + " directory is empty"@
        },
        (Some(files), Some(assets)) => "id: "@ + decimal(link_id as nat) + ", Downloaded "@ + decimal(
            files as nat,
        ) + " out of "@ + decimal(assets as nat) + " media files"@,
        (None, Some(_)) => "id: "@ + decimal(link_id as nat) + ", Not downloaded yet"@,
    }
}

/// The report of a download pass that brought in `count` files.
pub fn downloaded_message(count: usize) -> (message: String)
    ensures
        message@ == downloaded_text(count),
{
    let mut message = String::from_str("Downloaded ");
    message.append(decimal_text(count).as_str());
    message.append(" files");
    message
}

/// The report of a reconciliation pass.
pub fn reconciliation_message(
    link_id: usize,
    dir_path: &str,
    dir_files: Option<usize>,
    page_assets: Option<usize>,
) -> (message: String)
    ensures
        message@ == reconciliation_text(link_id, dir_path@, dir_files, page_assets),
{
    match (dir_files, page_assets) {
        (None, None) => {
            let mut message = String::from_str(dir_path);
            message.append(" does not exist and page not found");
            message
        },
        (Some(files), None) => {
            if files > 0 {
                let mut message = String::from_str("id: ");
                message.append(decimal_text(link_id).as_str());
                message.append(", Files detected in directory, download marked as complete");
                message
            } else {
                let mut message = String::from_str(dir_path);
                message.append(" directory is empty");
                message
            }
        },
        (Some(files), Some(assets)) => {
            let mut message = String::from_str("id: ");
            message.append(decimal_text(link_id).as_str());
            message.append(", Downloaded ");
            message.append(decimal_text(files).as_str());
            message.append(" out of ");
            message.append(decimal_text(assets).as_str());
            message.append(" media files");
            message
        },
        (None, Some(_)) => {
            let mut message = String::from_str("id: ");
            message.append(decimal_text(link_id).as_str());
            message.append(", Not downloaded yet");
            message
        },
    }
}

} // verus!
