//! Records of downloaded files.

use vstd::prelude::*;

verus! {

/// A persisted record of one downloaded file.
#[derive(Debug, Clone, PartialEq, Eq)]
pub struct Mediafile {
    pub id: usize,
    pub path: String,
    pub name: String,
    pub hash: String,
    pub size: usize,
    pub date_added: String,
}

/// A file found or downloaded for a link, not yet persisted.
#[derive(Debug, Clone, PartialEq, Eq)]
pub struct CreateDto {
    pub name: String,
    pub path: String,
    pub hash: String,
    pub size: usize,
    pub link_id: usize,
}

/// What a [`Mediafile`] holds, as plain values.
pub struct MediafileView {
    pub id: usize,
    pub path: Seq<char>,
    pub name: Seq<char>,
    pub hash: Seq<char>,
    pub size: usize,
    pub date_added: Seq<char>,
}

/// What a [`CreateDto`] holds, as plain values.
pub struct CreateDtoView {
    pub name: Seq<char>,
    pub path: Seq<char>,
    pub hash: Seq<char>,
    pub size: usize,
    pub link_id: usize,
}

impl View for Mediafile {
    type V = MediafileView;

    open spec fn view(&self) -> MediafileView {
        MediafileView {
            id: self.id,
            path: self.path@,
            name: self.name@,
            hash: self.hash@,
            size: self.size,
            date_added: self.date_added@,
        }
    }
}

impl View for CreateDto {
    type V = CreateDtoView;

    open spec fn view(&self) -> CreateDtoView {
        CreateDtoView {
            name: self.name@,
            path: self.path@,
            hash: self.hash@,
            size: self.size,
            link_id: self.link_id,
        }
    }
}

impl MediafileView {
    /// The pair by which a record is recognised: content hash and path.
    pub open spec fn key(self) -> (Seq<char>, Seq<char>) {
        (self.hash, self.path)
    }
}

impl CreateDtoView {
    /// The pair by which a record is recognised: content hash and path.
    pub open spec fn key(self) -> (Seq<char>, Seq<char>) {
        (self.hash, self.path)
    }
}

/// The views of a list of persisted records, in order.
pub open spec fn mediafile_views(records: Seq<Mediafile>) -> Seq<MediafileView> {
    records.map_values(|m: Mediafile| m@)
}

/// The views of a list of candidate records, in order.
pub open spec fn create_dto_views(records: Seq<CreateDto>) -> Seq<CreateDtoView> {
    records.map_values(|d: CreateDto| d@)
}

impl CreateDto {
    /// A copy of this record.
    pub fn duplicate(&self) -> (copy: CreateDto)
        ensures
            copy@ == self@,
    {
        CreateDto {
            name: self.name.clone(),
            path: self.path.clone(),
            hash: self.hash.clone(),
            size: self.size,
            link_id: self.link_id,
        }
    }
}

} // verus!
