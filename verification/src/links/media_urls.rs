//! Which address a media element is fetched from, under which name it is
//! stored, and whether it is fetched at all.

use crate::config::Config;
use crate::text::{after_last_slash, join_text, ends_with, starts_with, string_views, tail_after_last_slash};
use vstd::prelude::*;

verus! {

/// The characters of `http://`.
pub open spec fn http_scheme() -> Seq<char> {
    seq!['h', 't', 't', 'p', ':', '/', '/']
}

/// The characters of `https://`.
pub open spec fn https_scheme() -> Seq<char> {
    seq!['h', 't', 't', 'p', 's', ':', '/', '/']
}

/// An address is absolute where it begins with `http://` or `https://`.
pub open spec fn is_absolute(url: Seq<char>) -> bool {
    http_scheme().is_prefix_of(url) || https_scheme().is_prefix_of(url)
}

/// The address that `url` is fetched from: itself where it is absolute,
/// else `root_url` with `url` appended as it stands.
pub open spec fn download_address(root_url: Seq<char>, url: Seq<char>) -> Seq<char> {
    if is_absolute(url) {
        url
    } else {
        root_url + url
    }
}

/// A file name is accepted where it ends with one of `extensions`.
pub open spec fn has_allowed_extension(file_name: Seq<char>, extensions: Seq<Seq<char>>) -> bool {
    exists|i: int| 0 <= i < extensions.len() && (#[trigger] extensions[i]).is_suffix_of(file_name)
}

/// What is done for one media address.
#[derive(Debug, Clone, PartialEq, Eq)]
pub enum AssetAction {
    /// The file is on disk already: it is hashed where it lies.
    Reuse { file_name: String },
    /// The file name has no accepted extension: nothing is fetched.
    Skip { file_name: String },
    /// The file is fetched from `download_url` and stored as `file_name`.
    Fetch { file_name: String, download_url: String },
}

/// What an [`AssetAction`] holds, as plain values.
pub enum AssetPlan {
    Reuse { file_name: Seq<char> },
    Skip { file_name: Seq<char> },
    Fetch { file_name: Seq<char>, download_url: Seq<char> },
}

impl View for AssetAction {
    type V = AssetPlan;

    open spec fn view(&self) -> AssetPlan {
        match self {
            AssetAction::Reuse { file_name } => AssetPlan::Reuse { file_name: file_name@ },
            AssetAction::Skip { file_name } => AssetPlan::Skip { file_name: file_name@ },
            AssetAction::Fetch { file_name, download_url } => AssetPlan::Fetch {
                file_name: file_name@,
                download_url: download_url@,
            },
        }
    }
}

/// The action for `url`: reuse comes before the extension test, as a file
/// on disk is never fetched again; the file name is what follows the last
/// `/` of `url`.
pub open spec fn planned_action(
    root_url: Seq<char>,
    extensions: Seq<Seq<char>>,
    url: Seq<char>,
    on_disk: bool,
) -> AssetPlan {
    let file_name = after_last_slash(url);
    if on_disk {
        AssetPlan::Reuse { file_name }
    } else if !has_allowed_extension(file_name, extensions) {
        AssetPlan::Skip { file_name }
    } else {
        AssetPlan::Fetch { file_name, download_url: download_address(root_url, url) }
    }
}

/// Whether `file_name` ends with one of `extensions`.
pub fn is_valid_extension(file_name: &str, extensions: &Vec<String>) -> (valid: bool)
    ensures
        valid == has_allowed_extension(file_name@, string_views(extensions@)),
{
    let mut i: usize = 0;
    while i < extensions.len()
        invariant
            0 <= i <= extensions@.len(),
            forall|k: int| 0 <= k < i ==> !(#[trigger] string_views(extensions@)[k]).is_suffix_of(file_name@),
        decreases extensions@.len() - i,
    {
        if ends_with(file_name, extensions[i].as_str()) {
            assert(string_views(extensions@)[i as int].is_suffix_of(file_name@));
            return true;
        }
        i = i + 1;
    }
    false
}

/// Whether `url` begins with `http://` or `https://`.
pub fn is_absolute_url(url: &str) -> (absolute: bool)
    ensures
        absolute == is_absolute(url@),
{
    proof {
        reveal_strlit("http://");
        reveal_strlit("https://");
        assert("http://"@ =~= http_scheme());
        assert("https://"@ =~= https_scheme());
    }
    starts_with(url, "http://") || starts_with(url, "https://")
}

/// The name under which the file behind `url` is stored.
pub fn file_name_from_url(url: &str) -> (file_name: String)
    ensures
        file_name@ == after_last_slash(url@),
        !file_name@.contains('/'),
{
    tail_after_last_slash(url)
}

/// The address that `url` is fetched from.
pub fn resolve_download_url(url: &str, root_url: &str) -> (address: String)
    ensures
        address@ == download_address(root_url@, url@),
{
    if is_absolute_url(url) {
        String::from_str(url)
    } else {
        join_text(root_url, url)
    }
}

/// Decides what is done for `url`, given whether its file is on disk.
pub fn plan_asset(config: &Config, url: &str, on_disk: bool) -> (action: AssetAction)
    ensures
        action@ == planned_action(config.root_url@, string_views(config.extensions@), url@, on_disk),
{
    let file_name = file_name_from_url(url);
    if on_disk {
        AssetAction::Reuse { file_name }
    } else if !is_valid_extension(file_name.as_str(), &config.extensions) {
        AssetAction::Skip { file_name }
    } else {
        let download_url = resolve_download_url(url, config.root_url.as_str());
        AssetAction::Fetch { file_name, download_url }
    }
}

} // verus!
