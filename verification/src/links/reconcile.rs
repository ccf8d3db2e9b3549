//! Reconciliation of a link's counters with what its directory and its page
//! show.

use super::dto::CounterUpdate;
use crate::progress::{floor_progress, floored_percent, lemma_floored_percent_bounded};
use vstd::prelude::*;

verus! {

/// The counters of a link whose directory holds `files` files while its page
/// cannot be reached: all that is there counts as all there is.
pub open spec fn counters_without_page(files: usize) -> CounterUpdate {
    CounterUpdate { mediafiles: files, downloaded_mediafiles: files, is_downloaded: true, progress: 100 }
}

/// The counters of a link whose page shows `page_assets` media elements and
/// that has no directory: nothing is downloaded yet.
pub open spec fn counters_without_dir(page_assets: usize) -> CounterUpdate {
    CounterUpdate {
        mediafiles: page_assets,
        downloaded_mediafiles: 0,
        is_downloaded: false,
        progress: 0,
    }
}

/// The counters of a link whose page shows `page_assets` media elements and
/// whose directory holds `files` files: the floored share of the files in
/// the elements. A page without media elements leaves nothing to download,
/// so the link is then complete at 100.
pub open spec fn counters_with_both(page_assets: usize, files: usize) -> CounterUpdate {
    if page_assets == 0 {
        CounterUpdate {
            mediafiles: page_assets,
            downloaded_mediafiles: files,
            is_downloaded: true,
            progress: 100,
        }
    } else {
        CounterUpdate {
            mediafiles: page_assets,
            downloaded_mediafiles: files,
            is_downloaded: files == page_assets,
            progress: floored_percent(page_assets as nat, files as nat) as usize,
        }
    }
}

/// Whether the floored progress of `files` in `page_assets` fits a counter.
pub open spec fn progress_fits(page_assets: usize, files: usize) -> bool {
    floored_percent(page_assets as nat, files as nat) <= usize::MAX as nat
}

/// What a reconciliation pass does to a link's counters.
#[derive(Debug, Clone, Copy, PartialEq, Eq, Structural)]
pub enum Reconciliation {
    /// Neither directory nor page is there: the counters stay as they are.
    Untouched,
    /// The counters are set to these.
    Update(CounterUpdate),
    /// The directory holds so many more files than the page has media
    /// elements that no counter can hold the progress; nothing is set.
    Overflow,
}

/// What a reconciliation pass does: nothing where neither directory nor page
/// is there, else it sets the counters of the case at hand. `dir_files` is
/// the number of files in the link's directory where it exists, `page_assets`
/// the number of media elements on the page where it can be reached.
pub open spec fn reconciled(dir_files: Option<usize>, page_assets: Option<usize>) -> Reconciliation {
    match (dir_files, page_assets) {
        (None, None) => Reconciliation::Untouched,
        (Some(files), None) => Reconciliation::Update(counters_without_page(files)),
        (Some(files), Some(assets)) => if progress_fits(assets, files) {
            Reconciliation::Update(counters_with_both(assets, files))
        } else {
            Reconciliation::Overflow
        },
        (None, Some(assets)) => Reconciliation::Update(counters_without_dir(assets)),
    }
}

/// The counters for a directory without a reachable page.
pub fn handle_downloaded_dir_without_page(files: usize) -> (update: CounterUpdate)
    ensures
        update == counters_without_page(files),
{
    CounterUpdate { mediafiles: files, downloaded_mediafiles: files, is_downloaded: true, progress: 100 }
}

/// The counters for a reachable page without a directory.
pub fn handle_page_without_dir(page_assets: usize) -> (update: CounterUpdate)
    ensures
        update == counters_without_dir(page_assets),
{
    CounterUpdate { mediafiles: page_assets, downloaded_mediafiles: 0, is_downloaded: false, progress: 0 }
}

/// The counters for a directory beside a reachable page, or `None` where no
/// counter can hold the progress.
pub fn handle_dir_and_page(page_assets: usize, files: usize) -> (update: Option<CounterUpdate>)
    ensures
        update == if progress_fits(page_assets, files) {
            Some(counters_with_both(page_assets, files))
        } else {
            None
        },
        files <= page_assets ==> update.is_some(),
{
    if page_assets == 0 {
        Some(
            CounterUpdate {
                mediafiles: page_assets,
                downloaded_mediafiles: files,
                is_downloaded: true,
                progress: 100,
            },
        )
    } else {
        match floor_progress(page_assets, files) {
            Some(progress) => Some(
                CounterUpdate {
                    mediafiles: page_assets,
                    downloaded_mediafiles: files,
                    is_downloaded: files == page_assets,
                    progress,
                },
            ),
            None => None,
        }
    }
}

/// One reconciliation pass over the numbers found.
pub fn reconcile(dir_files: Option<usize>, page_assets: Option<usize>) -> (outcome: Reconciliation)
    ensures
        outcome == reconciled(dir_files, page_assets),
{
    match (dir_files, page_assets) {
        (None, None) => Reconciliation::Untouched,
        (Some(files), None) => Reconciliation::Update(handle_downloaded_dir_without_page(files)),
        (Some(files), Some(assets)) => match handle_dir_and_page(assets, files) {
            Some(update) => Reconciliation::Update(update),
            None => Reconciliation::Overflow,
        },
        (None, Some(assets)) => Reconciliation::Update(handle_page_without_dir(assets)),
    }
}

/// Whatever a reconciliation pass sets is a percentage, as long as the
/// directory holds no more files than the page has media elements; the pass
/// then sets counters whenever a directory or a page is there.
pub proof fn lemma_reconciled_progress_bounded(dir_files: Option<usize>, page_assets: Option<usize>)
    requires
        dir_files.is_some() && page_assets.is_some() && page_assets.unwrap() > 0
            ==> dir_files.unwrap() <= page_assets.unwrap(),
    ensures
        reconciled(dir_files, page_assets) != Reconciliation::Overflow,
        reconciled(dir_files, page_assets) matches Reconciliation::Update(update)
            ==> update.is_bounded(),
{
    if dir_files.is_some() && page_assets.is_some() && page_assets.unwrap() > 0 {
        lemma_floored_percent_bounded(page_assets.unwrap() as nat, dir_files.unwrap() as nat);
    }
}

} // verus!
