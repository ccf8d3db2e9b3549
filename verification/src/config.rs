//! The configuration that the engine is started with.

use crate::text::{split, split_on, string_views, trim, trimmed};
use vstd::prelude::*;

verus! {

/// Where relative media addresses are resolved against, and which file
/// extensions count as media.
#[derive(Debug, Clone, PartialEq, Eq)]
pub struct Config {
    pub root_url: String,
    pub extensions: Vec<String>,
}

/// The extensions that a comma-separated list names: its pieces, each
/// without the white space around it.
pub open spec fn listed_extensions(list: Seq<char>) -> Seq<Seq<char>> {
    split_on(list, ',').map_values(|piece: Seq<char>| trimmed(piece))
}

/// The extensions that the comma-separated `list` names.
pub fn parse_extensions(list: &str) -> (extensions: Vec<String>)
    ensures
        string_views(extensions@) == listed_extensions(list@),
{
    let pieces = split(list, ',');
    let mut extensions: Vec<String> = Vec::new();
    let mut i: usize = 0;
    while i < pieces.len()
        invariant
            0 <= i <= pieces@.len(),
            string_views(pieces@) == split_on(list@, ','),
            string_views(extensions@) == listed_extensions(list@).subrange(0, i as int),
        decreases pieces@.len() - i,
    {
        let ghost kept = string_views(extensions@);
        extensions.push(trim(pieces[i].as_str()));
        proof {
            assert(string_views(pieces@)[i as int] == pieces@[i as int]@);
            assert(string_views(extensions@) =~= kept.push(trimmed(pieces@[i as int]@)));
            assert(string_views(extensions@) =~= listed_extensions(list@).subrange(0, i + 1));
        }
        i = i + 1;
    }
    proof {
        assert(listed_extensions(list@).subrange(0, i as int) =~= listed_extensions(list@));
    }
    extensions
}

impl Config {
    /// A configuration with this root address and these extensions.
    pub fn new(root_url: String, extensions: Vec<String>) -> (config: Self)
        ensures
            config.root_url == root_url,
            config.extensions == extensions,
    {
        Config { root_url, extensions }
    }

    /// A configuration with this root address and the extensions that the
    /// comma-separated list `extensions` names.
    pub fn from_settings(root_url: String, extensions: &str) -> (config: Self)
        ensures
            config.root_url == root_url,
            string_views(config.extensions@) == listed_extensions(extensions@),
    {
        Config { root_url, extensions: parse_extensions(extensions) }
    }
}

} // verus!
