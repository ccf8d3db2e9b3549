//! The inventory's side of a pass: which of the files found for a link are
//! not yet among its persisted records.

use super::dto::{create_dto_views, mediafile_views, CreateDto, CreateDtoView, Mediafile, MediafileView};
use vstd::prelude::*;

verus! {

/// The pair of content hash and path by which a record is recognised.
pub type RecordKey = (Seq<char>, Seq<char>);

/// The keys of the records in `records`.
pub open spec fn keys_of(records: Seq<MediafileView>) -> Set<RecordKey> {
    Set::new(|key: RecordKey| exists|i: int| 0 <= i < records.len() && #[trigger] records[i].key() == key)
}

/// The keys of candidate records, in order.
pub open spec fn candidate_keys(records: Seq<CreateDtoView>) -> Seq<RecordKey> {
    records.map_values(|c: CreateDtoView| c.key())
}

/// The candidates to insert, in their order: each one whose key is neither
/// in `known` nor that of a candidate selected before it.
pub open spec fn new_records(known: Set<RecordKey>, candidates: Seq<CreateDtoView>) -> Seq<CreateDtoView>
    decreases candidates.len(),
{
    if candidates.len() == 0 {
        candidates
    } else {
        let before = new_records(known, candidates.drop_last());
        let last = candidates.last();
        if known.contains(last.key()) || candidate_keys(before).contains(last.key()) {
            before
        } else {
            before.push(last)
        }
    }
}

/// No two of `records` share both hash and path.
pub open spec fn distinct_keys(records: Seq<RecordKey>) -> bool {
    forall|i: int, j: int| 0 <= i < j < records.len() ==> records[i] != records[j]
}

/// The keys of persisted records, in order.
pub open spec fn mediafile_keys(records: Seq<MediafileView>) -> Seq<RecordKey> {
    records.map_values(|m: MediafileView| m.key())
}

/// What a pass selects: no key twice, no key that is known, a key for
/// every candidate that is not known, and nothing but candidates.
pub proof fn lemma_new_records(known: Set<RecordKey>, candidates: Seq<CreateDtoView>)
    ensures
        distinct_keys(candidate_keys(new_records(known, candidates))),
        forall|k: int|
            0 <= k < new_records(known, candidates).len() ==> !known.contains(
                (#[trigger] new_records(known, candidates)[k]).key(),
            ),
        forall|i: int|
            0 <= i < candidates.len() ==> known.contains((#[trigger] candidates[i]).key())
                || candidate_keys(new_records(known, candidates)).contains(candidates[i].key()),
        forall|k: int|
            0 <= k < new_records(known, candidates).len() ==> candidates.contains(
                #[trigger] new_records(known, candidates)[k],
            ),
    decreases candidates.len(),
{
    if candidates.len() > 0 {
        let shorter = candidates.drop_last();
        let before = new_records(known, shorter);
        let after = new_records(known, candidates);
        let last = candidates.last();
        lemma_new_records(known, shorter);
        assert forall|i: int, j: int| 0 <= i < j < candidate_keys(after).len() implies candidate_keys(
            after,
        )[i] != candidate_keys(after)[j] by {
            if j < before.len() {
                assert(candidate_keys(before)[i] == after[i].key());
                assert(candidate_keys(before)[j] == after[j].key());
            } else {
                assert(candidate_keys(before)[i] == after[i].key());
                assert(!candidate_keys(before).contains(last.key()));
            }
        }
        assert forall|k: int| 0 <= k < after.len() implies !known.contains((#[trigger] after[k]).key()) by {
            if k < before.len() {
                assert(after[k] == before[k]);
            }
        }
        assert forall|i: int| 0 <= i < candidates.len() implies known.contains(
            (#[trigger] candidates[i]).key(),
        ) || candidate_keys(after).contains(candidates[i].key()) by {
            if i < shorter.len() {
                assert(shorter[i] == candidates[i]);
                if !known.contains(shorter[i].key()) {
                    let k = choose|k: int|
                        0 <= k < candidate_keys(before).len() && candidate_keys(before)[k]
                            == shorter[i].key();
                    assert(candidate_keys(after)[k] == candidates[i].key());
                }
            } else if !known.contains(last.key()) {
                if candidate_keys(before).contains(last.key()) {
                    let k = choose|k: int|
                        0 <= k < candidate_keys(before).len() && candidate_keys(before)[k] == last.key();
                    assert(candidate_keys(after)[k] == last.key());
                } else {
                    assert(candidate_keys(after)[before.len() as int] == last.key());
                }
            }
        }
        assert forall|k: int| 0 <= k < after.len() implies candidates.contains(#[trigger] after[k]) by {
            if k < before.len() {
                assert(after[k] == before[k]);
                assert(shorter.contains(before[k]));
                let i = choose|i: int| 0 <= i < shorter.len() && shorter[i] == before[k];
                assert(candidates[i] == after[k]);
            } else {
                assert(candidates[candidates.len() - 1] == after[k]);
            }
        }
    }
}

/// Candidates whose keys are all known leave nothing to insert.
pub proof fn lemma_known_candidates_select_nothing(known: Set<RecordKey>, candidates: Seq<CreateDtoView>)
    requires
        forall|i: int| 0 <= i < candidates.len() ==> known.contains((#[trigger] candidates[i]).key()),
    ensures
        new_records(known, candidates) == Seq::<CreateDtoView>::empty(),
    decreases candidates.len(),
{
    if candidates.len() > 0 {
        let shorter = candidates.drop_last();
        assert forall|i: int| 0 <= i < shorter.len() implies known.contains((#[trigger] shorter[i]).key()) by {
            assert(shorter[i] == candidates[i]);
        }
        lemma_known_candidates_select_nothing(known, shorter);
        assert(known.contains(candidates[candidates.len() - 1].key()));
    } else {
        assert(candidates =~= Seq::<CreateDtoView>::empty());
    }
}

/// The inventory stays free of duplicates: where no two persisted records
/// share both hash and path, the persisted records together with those that
/// a pass selects share none either.
pub proof fn lemma_dedup_preserved(existing: Seq<MediafileView>, candidates: Seq<CreateDtoView>)
    requires
        distinct_keys(mediafile_keys(existing)),
    ensures
        distinct_keys(
            mediafile_keys(existing) + candidate_keys(new_records(keys_of(existing), candidates)),
        ),
{
    let known = keys_of(existing);
    let selected = new_records(known, candidates);
    let all = mediafile_keys(existing) + candidate_keys(selected);
    lemma_new_records(known, candidates);
    assert forall|i: int, j: int| 0 <= i < j < all.len() implies all[i] != all[j] by {
        let n = existing.len() as int;
        if j >= n {
            assert(!known.contains(selected[j - n].key()));
            if i < n {
                assert(existing[i].key() == all[i]);
            } else {
                assert(candidate_keys(selected)[i - n] != candidate_keys(selected)[j - n]);
            }
        }
    }
}

/// A pass repeated on the same candidates selects nothing: once the records
/// that a pass selected are persisted, the inventory knows every candidate.
pub proof fn lemma_second_pass_selects_nothing(known: Set<RecordKey>, candidates: Seq<CreateDtoView>)
    ensures
        new_records(
            known.union(candidate_keys(new_records(known, candidates)).to_set()),
            candidates,
        ) == Seq::<CreateDtoView>::empty(),
{
    let selected = new_records(known, candidates);
    let after = known.union(candidate_keys(selected).to_set());
    lemma_new_records(known, candidates);
    assert forall|i: int| 0 <= i < candidates.len() implies after.contains((#[trigger] candidates[i]).key()) by {
        if !known.contains(candidates[i].key()) {
            assert(candidate_keys(selected).contains(candidates[i].key()));
        }
    }
    lemma_known_candidates_select_nothing(after, candidates);
}

/// The keys already persisted for one link.
pub struct MediafilesService {
    known: Vec<(String, String)>,
}

impl View for MediafilesService {
    type V = Set<RecordKey>;

    closed spec fn view(&self) -> Set<RecordKey> {
        Set::new(
            |key: RecordKey|
                exists|i: int|
                    0 <= i < self.known@.len() && (#[trigger] self.known@[i]).0@ == key.0
                        && self.known@[i].1@ == key.1,
        )
    }
}

impl MediafilesService {
    /// No key is held twice.
    pub closed spec fn wf(&self) -> bool {
        forall|i: int, j: int|
            0 <= i < j < self.known@.len() ==> !((#[trigger] self.known@[i]).0@ == (
            #[trigger] self.known@[j]).0@ && self.known@[i].1@ == self.known@[j].1@)
    }

    /// An inventory without records.
    pub fn new() -> (service: Self)
        ensures
            service.wf(),
            service@ == Set::<RecordKey>::empty(),
    {
        let service = MediafilesService { known: Vec::new() };
        assert(service@ =~= Set::<RecordKey>::empty());
        service
    }

    /// The inventory of a link whose persisted records are `records`.
    pub fn with_records(records: &Vec<Mediafile>) -> (service: Self)
        ensures
            service.wf(),
            service@ == keys_of(mediafile_views(records@)),
    {
        let mut service = MediafilesService::new();
        let mut i: usize = 0;
        while i < records.len()
            invariant
                0 <= i <= records@.len(),
                service.wf(),
                service@ == keys_of(mediafile_views(records@.subrange(0, i as int))),
            decreases records@.len() - i,
        {
            let ghost before = service@;
            service.remember(&records[i].hash, &records[i].path);
            proof {
                let shorter = mediafile_views(records@.subrange(0, i as int));
                let longer = mediafile_views(records@.subrange(0, i + 1));
                assert(longer[i as int] == records@[i as int]@);
                assert forall|key: RecordKey| keys_of(longer).contains(key) implies service@.contains(
                    key,
                ) by {
                    let k = choose|k: int| 0 <= k < longer.len() && #[trigger] longer[k].key() == key;
                    if k < i {
                        assert(shorter[k] == longer[k]);
                    }
                }
                assert forall|key: RecordKey| service@.contains(key) implies keys_of(longer).contains(
                    key,
                ) by {
                    if before.contains(key) {
                        let k = choose|k: int|
                            0 <= k < shorter.len() && #[trigger] shorter[k].key() == key;
                        assert(longer[k] == shorter[k]);
                    } else {
                        assert(longer[i as int].key() == key);
                    }
                }
                assert(service@ =~= keys_of(longer));
            }
            i = i + 1;
        }
        proof {
            assert(records@.subrange(0, i as int) =~= records@);
        }
        service
    }

    /// Whether a record with this hash and path is persisted.
    pub fn contains(&self, hash: &String, path: &String) -> (found: bool)
        ensures
            found == self@.contains((hash@, path@)),
    {
        let mut i: usize = 0;
        while i < self.known.len()
            invariant
                0 <= i <= self.known@.len(),
                forall|k: int|
                    0 <= k < i ==> !((#[trigger] self.known@[k]).0@ == hash@ && self.known@[k].1@
                        == path@),
            decreases self.known@.len() - i,
        {
            if self.known[i].0 == *hash && self.known[i].1 == *path {
                return true;
            }
            i = i + 1;
        }
        false
    }

    /// Notes that a record with this hash and path is persisted.
    pub fn remember(&mut self, hash: &String, path: &String)
        requires
            old(self).wf(),
        ensures
            final(self).wf(),
            final(self)@ == old(self)@.insert((hash@, path@)),
    {
        if !self.contains(hash, path) {
            let ghost before = self.known@;
            self.known.push((hash.clone(), path.clone()));
            proof {
                assert forall|key: RecordKey| old(self)@.insert((hash@, path@)).contains(
                    key,
                ) implies self@.contains(key) by {
                    if key == (hash@, path@) {
                        assert(self.known@[before.len() as int].0@ == key.0);
                    } else {
                        let k = choose|k: int|
                            0 <= k < before.len() && (#[trigger] before[k]).0@ == key.0
                                && before[k].1@ == key.1;
                        assert(self.known@[k] == before[k]);
                    }
                }
                assert forall|key: RecordKey| self@.contains(key) implies old(self)@.insert(
                    (hash@, path@),
                ).contains(key) by {
                    let k = choose|k: int|
                        0 <= k < self.known@.len() && (#[trigger] self.known@[k]).0@ == key.0
                            && self.known@[k].1@ == key.1;
                    if k < before.len() {
                        assert(before[k] == self.known@[k]);
                    }
                }
                assert(self@ =~= old(self)@.insert((hash@, path@)));
                assert forall|i: int, j: int| 0 <= i < j < self.known@.len() implies !((
                #[trigger] self.known@[i]).0@ == (#[trigger] self.known@[j]).0@
                    && self.known@[i].1@ == self.known@[j].1@) by {
                    assert(self.known@[i] == before[i]);
                    if j < before.len() {
                        assert(self.known@[j] == before[j]);
                    }
                }
            }
        } else {
            assert(self@ =~= old(self)@.insert((hash@, path@)));
        }
    }

    /// The candidates to insert: each one whose pair of hash and path the
    /// inventory lacks and no candidate selected before it carries, in the
    /// order given.
    pub fn select_new(&self, candidates: &Vec<CreateDto>) -> (fresh: Vec<CreateDto>)
        ensures
            create_dto_views(fresh@) == new_records(self@, create_dto_views(candidates@)),
    {
        let mut fresh: Vec<CreateDto> = Vec::new();
        let mut i: usize = 0;
        proof {
            assert(create_dto_views(fresh@) =~= new_records(
                self@,
                create_dto_views(candidates@.subrange(0, 0)),
            ));
        }
        while i < candidates.len()
            invariant
                0 <= i <= candidates@.len(),
                create_dto_views(fresh@) == new_records(
                    self@,
                    create_dto_views(candidates@.subrange(0, i as int)),
                ),
            decreases candidates@.len() - i,
        {
            let candidate = &candidates[i];
            let known = self.contains(&candidate.hash, &candidate.path);
            let selected = holds_key(&fresh, candidate);
            let ghost kept = fresh@;
            if !known && !selected {
                fresh.push(candidate.duplicate());
            }
            proof {
                let shorter = create_dto_views(candidates@.subrange(0, i as int));
                let longer = create_dto_views(candidates@.subrange(0, i + 1));
                assert(longer.drop_last() =~= shorter);
                assert(longer.last() == candidate@);
                if !known && !selected {
                    assert(create_dto_views(fresh@) =~= create_dto_views(kept).push(candidate@));
                }
            }
            i = i + 1;
        }
        proof {
            assert(candidates@.subrange(0, i as int) =~= candidates@);
        }
        fresh
    }

    /// Takes the candidates into the inventory: selects those to insert, as
    /// [`MediafilesService::select_new`] does, and notes each of them as
    /// persisted. The number of records inserted is the length of the
    /// result.
    pub fn reconcile(&mut self, candidates: &Vec<CreateDto>) -> (inserted: Vec<CreateDto>)
        requires
            old(self).wf(),
        ensures
            final(self).wf(),
            create_dto_views(inserted@) == new_records(old(self)@, create_dto_views(candidates@)),
            final(self)@ == old(self)@.union(candidate_keys(create_dto_views(inserted@)).to_set()),
    {
        let inserted = self.select_new(candidates);
        let ghost keys = candidate_keys(create_dto_views(inserted@));
        let mut i: usize = 0;
        proof {
            assert(keys.subrange(0, 0).to_set() =~= Set::<RecordKey>::empty());
            assert(self@ =~= old(self)@.union(keys.subrange(0, 0).to_set()));
        }
        while i < inserted.len()
            invariant
                0 <= i <= inserted@.len(),
                keys == candidate_keys(create_dto_views(inserted@)),
                self.wf(),
                self@ == old(self)@.union(keys.subrange(0, i as int).to_set()),
            decreases inserted@.len() - i,
        {
            let ghost before = self@;
            self.remember(&inserted[i].hash, &inserted[i].path);
            proof {
                let key = (inserted@[i as int].hash@, inserted@[i as int].path@);
                assert(keys[i as int] == key);
                let shorter = keys.subrange(0, i as int);
                let longer = keys.subrange(0, i + 1);
                assert forall|k: RecordKey| longer.to_set().contains(k) <==> shorter.to_set().contains(k) || k
                    == key by {
                    if longer.contains(k) {
                        let j = choose|j: int| 0 <= j < longer.len() && longer[j] == k;
                        if j < i {
                            assert(shorter[j] == k);
                        }
                    }
                    if shorter.contains(k) {
                        let j = choose|j: int| 0 <= j < shorter.len() && shorter[j] == k;
                        assert(longer[j] == k);
                    }
                    if k == key {
                        assert(longer[i as int] == k);
                    }
                }
                assert(self@ =~= old(self)@.union(longer.to_set()));
            }
            i = i + 1;
        }
        proof {
            assert(keys.subrange(0, i as int) =~= keys);
        }
        inserted
    }
}

/// Whether one of `records` has the hash and the path of `candidate`.
fn holds_key(records: &Vec<CreateDto>, candidate: &CreateDto) -> (found: bool)
    ensures
        found == candidate_keys(create_dto_views(records@)).contains(candidate@.key()),
{
    let mut i: usize = 0;
    while i < records.len()
        invariant
            0 <= i <= records@.len(),
            forall|k: int| 0 <= k < i ==> candidate_keys(create_dto_views(records@))[k] != candidate@.key(),
        decreases records@.len() - i,
    {
        if records[i].hash == candidate.hash && records[i].path == candidate.path {
            assert(candidate_keys(create_dto_views(records@))[i as int] == candidate@.key());
            return true;
        }
        i = i + 1;
    }
    false
}

} // verus!
