//! The values that describe a tracked page and the requests made about it.

use crate::progress::{calculate_progress, download_progress};
use vstd::prelude::*;

verus! {

/// A tracked page.
#[derive(Debug, Clone, PartialEq, Eq)]
pub struct Link {
    pub id: usize,
    pub path: String,
    pub name: String,
    pub is_downloaded: bool,
    pub is_reachable: bool,
    pub progress: usize,
    pub downloaded_mediafiles: usize,
    pub mediafiles: usize,
    pub date_update: Option<String>,
    pub date_create: String,
    pub duplicate_id: Option<usize>,
    pub duplicate_path: Option<String>,
}

/// The outcome of a request, as it is reported.
#[derive(Debug, Clone, PartialEq, Eq)]
pub struct IResult {
    pub success: bool,
    pub message: String,
}

/// The request to track a page.
#[derive(Debug, Clone, PartialEq, Eq)]
pub struct CreateLinkDto {
    pub path: String,
}

/// The filters of a listing.
#[derive(Debug, Clone, Copy, PartialEq, Eq)]
pub struct BooleanQuery {
    pub is_reachable: Option<bool>,
    pub show_duplicate: Option<bool>,
}

/// The request to mark a page reachable or not.
#[derive(Debug, Clone, Copy, PartialEq, Eq)]
pub struct TagUnreachableParams {
    pub id: usize,
    pub is_reachable: Option<bool>,
}

/// A request about one record.
#[derive(Debug, Clone, Copy, PartialEq, Eq)]
pub struct IdDto {
    pub id: usize,
}

/// The request to mark one page as a duplicate of another.
#[derive(Debug, Clone, Copy, PartialEq, Eq)]
pub struct IdDublicateDto {
    pub link_id: usize,
    pub duplicate_id: usize,
}

/// How many of a page's media elements a download pass brought in.
#[derive(Debug, Clone, Copy, PartialEq, Eq)]
pub struct DownloadedFiles {
    pub downloaded: usize,
    pub total: usize,
}

/// The counters of a link as one pass sets them.
#[derive(Debug, Clone, Copy, PartialEq, Eq, Structural)]
pub struct CounterUpdate {
    pub mediafiles: usize,
    pub downloaded_mediafiles: usize,
    pub is_downloaded: bool,
    pub progress: usize,
}

impl CounterUpdate {
    /// The progress is a percentage.
    pub open spec fn is_bounded(self) -> bool {
        self.progress <= 100
    }
}

impl BooleanQuery {
    /// The reachability asked for: `false` where the request names none.
    pub fn reachable(&self) -> (reachable: bool)
        ensures
            reachable == (self.is_reachable == Some(true)),
    {
        match self.is_reachable {
            Some(value) => value,
            None => false,
        }
    }

    /// Whether duplicates are asked for: `false` where the request does not say.
    pub fn duplicates(&self) -> (duplicates: bool)
        ensures
            duplicates == (self.show_duplicate == Some(true)),
    {
        match self.show_duplicate {
            Some(value) => value,
            None => false,
        }
    }
}

impl TagUnreachableParams {
    /// The reachability to set: `false` where the request names none.
    pub fn reachable(&self) -> (reachable: bool)
        ensures
            reachable == (self.is_reachable == Some(true)),
    {
        match self.is_reachable {
            Some(value) => value,
            None => false,
        }
    }
}

/// The counters that follow from `downloaded` files out of `total` media
/// elements after a download pass.
pub open spec fn download_counters(total: usize, downloaded: usize) -> CounterUpdate {
    CounterUpdate {
        mediafiles: total,
        downloaded_mediafiles: downloaded,
        is_downloaded: downloaded == total,
        progress: download_progress(total, downloaded),
    }
}

impl DownloadedFiles {
    /// The counters that a link gets from this pass: the rounded progress,
    /// and complete exactly when every element was brought in.
    pub fn counters(&self) -> (update: CounterUpdate)
        ensures
            update == download_counters(self.total, self.downloaded),
            self.downloaded <= self.total ==> update.is_bounded(),
    {
        CounterUpdate {
            mediafiles: self.total,
            downloaded_mediafiles: self.downloaded,
            is_downloaded: self.downloaded == self.total,
            progress: calculate_progress(self.total, self.downloaded),
        }
    }
}

impl Link {
    /// Sets the counters of this link to those of `update` and notes when.
    pub fn apply(&mut self, update: CounterUpdate, now: String)
        ensures
            final(self).mediafiles == update.mediafiles,
            final(self).downloaded_mediafiles == update.downloaded_mediafiles,
            final(self).is_downloaded == update.is_downloaded,
            final(self).progress == update.progress,
            final(self).date_update == Some(now),
            final(self).id == old(self).id,
            final(self).path == old(self).path,
            final(self).name == old(self).name,
            final(self).is_reachable == old(self).is_reachable,
            final(self).date_create == old(self).date_create,
            final(self).duplicate_id == old(self).duplicate_id,
            final(self).duplicate_path == old(self).duplicate_path,
    {
        self.mediafiles = update.mediafiles;
        self.downloaded_mediafiles = update.downloaded_mediafiles;
        self.is_downloaded = update.is_downloaded;
        self.progress = update.progress;
        self.date_update = Some(now);
    }
}

} // verus!
