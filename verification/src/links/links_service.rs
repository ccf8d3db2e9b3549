//! The passes over a link: download, reconciliation and the adoption of
//! files that are on disk already.

use super::dto::{download_counters, CounterUpdate, CreateLinkDto, DownloadedFiles};
use super::media_urls::{plan_asset, planned_action, AssetAction};
use super::page::{count_media_files, page_media_sources};
use super::reconcile::{reconcile, reconciled, Reconciliation};
use super::url::{first_two_groups, link_name, name_from_url, URL_PATTERN};
use crate::config::Config;
use crate::mediafiles::dto::{create_dto_views, CreateDto, CreateDtoView};
use crate::mediafiles::hashing::{calculate_hash_size, content_hash};
use crate::mediafiles::mediafiles_service::{
    candidate_keys, lemma_known_candidates_select_nothing, lemma_new_records, new_records, MediafilesService,
    RecordKey,
};
use crate::text::{after_last_slash, string_views, tail_after_last_slash};
use crate::utils::{ErrorKind, SyncError};
use vstd::prelude::*;

verus! {

/// A file found in a link's directory.
#[derive(Debug, Clone, PartialEq, Eq)]
pub struct FoundFile {
    pub path: String,
    pub data: Vec<u8>,
}

/// What a [`FoundFile`] holds, as plain values.
pub struct FoundFileView {
    pub path: Seq<char>,
    pub data: Seq<u8>,
}

impl View for FoundFile {
    type V = FoundFileView;

    open spec fn view(&self) -> FoundFileView {
        FoundFileView { path: self.path@, data: self.data@ }
    }
}

/// A link that is to be created: the page's address and the link's name.
#[derive(Debug, Clone, PartialEq, Eq)]
pub struct NewLink {
    pub path: String,
    pub name: String,
}

/// What a download pass leaves to be persisted.
#[derive(Debug, Clone, PartialEq, Eq)]
pub struct DownloadPlan {
    /// The records to insert, in the order of their outcomes.
    pub new_records: Vec<CreateDto>,
    /// How many media elements there were and how many files came of them.
    pub files: DownloadedFiles,
    /// The counters to set on the link.
    pub counters: CounterUpdate,
}

/// The record of a task that succeeded; nothing for one that failed or was
/// skipped.
pub open spec fn success_of(outcome: Result<CreateDto, String>) -> Option<CreateDtoView> {
    match outcome {
        Ok(record) => Some(record@),
        Err(_) => None,
    }
}

/// The records of the tasks that succeeded, in the order of the outcomes.
pub open spec fn successes(outcomes: Seq<Result<CreateDto, String>>) -> Seq<CreateDtoView> {
    outcomes.filter_map(|outcome: Result<CreateDto, String>| success_of(outcome))
}

/// The number of tasks that failed or were skipped.
pub open spec fn failure_count(outcomes: Seq<Result<CreateDto, String>>) -> nat {
    outcomes.filter(|outcome: Result<CreateDto, String>| outcome.is_err()).len()
}

/// The record that stands for a file with this content under this path.
pub open spec fn record_of(name: Seq<char>, path: Seq<char>, data: Seq<u8>, link_id: usize) -> CreateDtoView {
    CreateDtoView { name, path, hash: content_hash(data), size: data.len() as usize, link_id }
}

/// The record that stands for a file found on disk: its name is what
/// follows the last `/` of its path.
pub open spec fn found_record(file: FoundFileView, link_id: usize) -> CreateDtoView {
    record_of(after_last_slash(file.path), file.path, file.data, link_id)
}

/// The record for a file found on disk, unless the inventory holds its pair
/// of hash and path already.
pub open spec fn adopted(known: Set<RecordKey>, file: FoundFileView, link_id: usize) -> Option<
    CreateDtoView,
> {
    if known.contains(found_record(file, link_id).key()) {
        None
    } else {
        Some(found_record(file, link_id))
    }
}

/// The records that stand for the files found on disk, in their order.
pub open spec fn found_records(files: Seq<FoundFile>, link_id: usize) -> Seq<CreateDtoView> {
    files.map_values(|file: FoundFile| found_record(file@, link_id))
}

/// The record of a file with content `data`, stored at `path` under `name`.
pub fn asset_record(name: String, path: String, data: &Vec<u8>, link_id: usize) -> (record: CreateDto)
    ensures
        record@ == record_of(name@, path@, data@, link_id),
{
    let (hash, size) = calculate_hash_size(data);
    CreateDto { name, path, hash, size, link_id }
}

/// Why a task whose file name has no accepted extension brings nothing.
pub open spec fn skipped_text(file_name: Seq<char>) -> Seq<char> {
    file_name + " is not an image"@
}

/// Why a task whose file on disk could not be read brings nothing.
pub open spec fn unread_text(path: Seq<char>, cause: Seq<char>) -> Seq<char> {
    "Error calculating hash and size: "@ + cause + ", path "@ + path
}

/// Why a task whose file could not be fetched or written brings nothing.
pub open spec fn unfetched_text(url: Seq<char>, cause: Seq<char>) -> Seq<char> {
    "Failed to download "@ + url + ": "@ + cause
}

/// What the outcome of a task holds, as plain values: the record of a
/// success, or the reason of a failure.
pub open spec fn outcome_view(outcome: Result<CreateDto, String>) -> Result<CreateDtoView, Seq<char>> {
    match outcome {
        Ok(record) => Ok(record@),
        Err(reason) => Err(reason@),
    }
}

/// The outcome of a task that skips its address: a failure that names the
/// file.
pub fn skipped_outcome(file_name: &str) -> (outcome: Result<CreateDto, String>)
    ensures
        outcome_view(outcome) == Err::<CreateDtoView, Seq<char>>(skipped_text(file_name@)),
{
    let mut reason = String::from_str(file_name);
    reason.append(" is not an image");
    Err(reason)
}

/// The outcome of a task that reuses the file at `path`, given what reading
/// it brought: the record of its content, or a failure that names the path
/// and the cause.
pub fn reused_outcome(file_name: String, path: String, link_id: usize, read: Result<Vec<u8>, String>) -> (outcome:
    Result<CreateDto, String>)
    ensures
        outcome_view(outcome) == match read {
            Ok(data) => Ok(record_of(file_name@, path@, data@, link_id)),
            Err(cause) => Err(unread_text(path@, cause@)),
        },
{
    match read {
        Ok(data) => Ok(asset_record(file_name, path, &data, link_id)),
        Err(cause) => {
            let mut reason = String::from_str("Error calculating hash and size: ");
            reason.append(cause.as_str());
            reason.append(", path ");
            reason.append(path.as_str());
            Err(reason)
        },
    }
}

/// The outcome of a task that fetches `url` into the file at `path`, given
/// what fetching and writing brought: the record of the content written, or
/// a failure that names the address and the cause.
pub fn fetched_outcome(
    file_name: String,
    path: String,
    url: &str,
    link_id: usize,
    fetched: Result<Vec<u8>, String>,
) -> (outcome: Result<CreateDto, String>)
    ensures
        outcome_view(outcome) == match fetched {
            Ok(data) => Ok(record_of(file_name@, path@, data@, link_id)),
            Err(cause) => Err(unfetched_text(url@, cause@)),
        },
{
    match fetched {
        Ok(data) => Ok(asset_record(file_name, path, &data, link_id)),
        Err(cause) => {
            let mut reason = String::from_str("Failed to download ");
            reason.append(url);
            reason.append(": ");
            reason.append(cause.as_str());
            Err(reason)
        },
    }
}

/// Gathers the records of the tasks that succeeded. The order of the
/// outcomes is kept and decides nothing else.
pub fn download_files_multi(outcomes: &Vec<Result<CreateDto, String>>) -> (downloaded: Vec<CreateDto>)
    ensures
        create_dto_views(downloaded@) == successes(outcomes@),
        downloaded@.len() + failure_count(outcomes@) == outcomes@.len(),
{
    let mut downloaded: Vec<CreateDto> = Vec::new();
    let mut i: usize = 0;
    proof {
        reveal(Seq::filter);
        assert(create_dto_views(downloaded@) =~= successes(outcomes@.subrange(0, 0)));
    }
    while i < outcomes.len()
        invariant
            0 <= i <= outcomes@.len(),
            create_dto_views(downloaded@) == successes(outcomes@.subrange(0, i as int)),
            downloaded@.len() + failure_count(outcomes@.subrange(0, i as int)) == i,
        decreases outcomes@.len() - i,
    {
        let ghost kept = downloaded@;
        match &outcomes[i] {
            Ok(record) => {
                downloaded.push(record.duplicate());
            },
            Err(_) => {},
        }
        proof {
            reveal(Seq::filter);
            let shorter = outcomes@.subrange(0, i as int);
            let longer = outcomes@.subrange(0, i + 1);
            assert(longer.drop_last() =~= shorter);
            assert(longer.last() == outcomes@[i as int]);
            match outcomes@[i as int] {
                Ok(record) => {
                    assert(create_dto_views(downloaded@) =~= create_dto_views(kept) + seq![record@]);
                },
                Err(_) => {},
            }
        }
        i = i + 1;
    }
    proof {
        assert(outcomes@.subrange(0, i as int) =~= outcomes@);
    }
    downloaded
}

/// The successes of two runs of outcomes, one behind the other, are the
/// successes of the first followed by those of the second.
pub proof fn lemma_successes_concat(
    first: Seq<Result<CreateDto, String>>,
    second: Seq<Result<CreateDto, String>>,
)
    ensures
        successes(first + second) == successes(first) + successes(second),
    decreases second.len(),
{
    if second.len() == 0 {
        assert(first + second =~= first);
        assert(successes(first) + successes(second) =~= successes(first));
    } else {
        lemma_successes_concat(first, second.drop_last());
        assert((first + second).drop_last() =~= first + second.drop_last());
        assert((first + second).last() == second.last());
        assert(successes(first + second) =~= successes(first) + successes(second));
    }
}

/// The order in which the tasks complete decides nothing: two lists that
/// hold the same outcomes, each as often as the other, give the same
/// successful records, each as often, and so the same number of them.
pub proof fn lemma_successes_unordered(
    first: Seq<Result<CreateDto, String>>,
    second: Seq<Result<CreateDto, String>>,
)
    requires
        first.to_multiset() == second.to_multiset(),
    ensures
        successes(first).to_multiset() == successes(second).to_multiset(),
        successes(first).len() == successes(second).len(),
    decreases first.len(),
{
    broadcast use vstd::seq_lib::group_to_multiset_ensures;

    if first.len() == 0 {
        assert(second.len() == second.to_multiset().len());
        assert(first.len() == first.to_multiset().len());
        assert(second =~= first);
    } else {
        let last = first.last();
        let rest = first.drop_last();
        assert(first =~= rest.push(last));
        assert(first.to_multiset() =~= rest.to_multiset().insert(last));
        assert(first.to_multiset().count(last) > 0);
        assert(second.contains(last));
        let j = choose|j: int| 0 <= j < second.len() && second[j] == last;
        let others = second.remove(j);
        assert(others.to_multiset() =~= second.to_multiset().remove(last));
        assert(rest.to_multiset() =~= others.to_multiset());
        lemma_successes_unordered(rest, others);

        let head = second.subrange(0, j);
        let tail = second.subrange(j + 1, second.len() as int);
        let one = seq![last];
        assert(second =~= head + one + tail);
        lemma_successes_concat(head, one);
        lemma_successes_concat(head + one, tail);
        lemma_successes_concat(head, tail);
        lemma_successes_concat(rest, one);
        assert(first =~= rest + one);
        assert(one.drop_last() =~= Seq::<Result<CreateDto, String>>::empty());
        vstd::seq_lib::lemma_multiset_commutative(successes(rest), successes(one));
        vstd::seq_lib::lemma_multiset_commutative(successes(head), successes(one));
        vstd::seq_lib::lemma_multiset_commutative(successes(head) + successes(one), successes(tail));
        vstd::seq_lib::lemma_multiset_commutative(successes(head), successes(tail));
        assert(successes(first).to_multiset() =~= successes(second).to_multiset());
        assert(successes(first).len() == successes(first).to_multiset().len());
        assert(successes(second).len() == successes(second).to_multiset().len());
    }
}

/// A download pass repeated changes nothing: where the tasks of a second
/// pass end as those of the first did, in whatever order, the second pass
/// sets the same counters, and once the records that the first selected are
/// persisted it selects none.
pub proof fn lemma_repeated_pass_changes_nothing(
    known: Set<RecordKey>,
    first: Seq<Result<CreateDto, String>>,
    second: Seq<Result<CreateDto, String>>,
)
    requires
        first.to_multiset() == second.to_multiset(),
    ensures
        download_counters(second.len() as usize, successes(second).len() as usize) == download_counters(
            first.len() as usize,
            successes(first).len() as usize,
        ),
        new_records(
            known.union(candidate_keys(new_records(known, successes(first))).to_set()),
            successes(second),
        ) == Seq::<CreateDtoView>::empty(),
{
    broadcast use vstd::seq_lib::group_to_multiset_ensures;

    lemma_successes_unordered(first, second);
    assert(first.len() == first.to_multiset().len());
    assert(second.len() == second.to_multiset().len());
    let selected = new_records(known, successes(first));
    let after = known.union(candidate_keys(selected).to_set());
    let again = successes(second);
    lemma_new_records(known, successes(first));
    assert forall|i: int| 0 <= i < again.len() implies after.contains((#[trigger] again[i]).key()) by {
        let c = again[i];
        assert(again.contains(c));
        assert(again.to_multiset().count(c) > 0);
        assert(successes(first).contains(c));
        let j = choose|j: int| 0 <= j < successes(first).len() && successes(first)[j] == c;
        if !known.contains(successes(first)[j].key()) {
            assert(candidate_keys(selected).contains(c.key()));
        }
    }
    lemma_known_candidates_select_nothing(after, again);
}

/// The engine, with the configuration it was started with.
#[derive(Debug, Clone, PartialEq, Eq)]
pub struct LinksService {
    pub config: Config,
}

impl LinksService {
    /// An engine that resolves addresses under `config`.
    pub fn new(config: Config) -> (service: Self)
        ensures
            service.config == config,
    {
        LinksService { config }
    }

    /// The link to create for a request: its name is taken from the
    /// address. An address that is not a well-formed absolute address is
    /// refused as invalid input.
    pub fn create_one(&self, dto: &CreateLinkDto) -> (created: Result<NewLink, SyncError>)
        ensures
            created matches Ok(link) ==> link.path@ == dto.path@ && Some(link.name@) == link_name(
                dto.path@,
                first_two_groups(URL_PATTERN@, dto.path@),
            ),
            created matches Err(error) ==> error.kind == ErrorKind::InvalidInput && error.message@
                == "Path is not a valid URL"@ && link_name(
                dto.path@,
                first_two_groups(URL_PATTERN@, dto.path@),
            ).is_none(),
    {
        match name_from_url(dto.path.as_str()) {
            Some(name) => Ok(NewLink { path: dto.path.clone(), name }),
            None => Err(SyncError::invalid_path()),
        }
    }

    /// Decides what is done for the media address `url`, given whether its
    /// file is on disk.
    pub fn plan(&self, url: &str, on_disk: bool) -> (action: AssetAction)
        ensures
            action@ == planned_action(
                self.config.root_url@,
                string_views(self.config.extensions@),
                url@,
                on_disk,
            ),
    {
        plan_asset(&self.config, url, on_disk)
    }

    /// Closes a download pass. `outcomes` holds one outcome for each media
    /// element of the page, in any order. The plan names the successful
    /// records that `inventory` lacks, and the counters: as many media
    /// elements as outcomes, as many downloaded as succeeded.
    pub fn download(&self, outcomes: &Vec<Result<CreateDto, String>>, inventory: &MediafilesService) -> (plan:
        DownloadPlan)
        ensures
            create_dto_views(plan.new_records@) == new_records(inventory@, successes(outcomes@)),
            plan.files.total == outcomes@.len(),
            plan.files.downloaded == successes(outcomes@).len(),
            plan.files.downloaded + failure_count(outcomes@) == outcomes@.len(),
            plan.counters == download_counters(plan.files.total, plan.files.downloaded),
            plan.counters.is_bounded(),
    {
        let downloaded = download_files_multi(outcomes);
        assert(create_dto_views(downloaded@).len() == downloaded@.len());
        let files = DownloadedFiles { downloaded: downloaded.len(), total: outcomes.len() };
        let new_records = inventory.select_new(&downloaded);
        let counters = files.counters();
        DownloadPlan { new_records, files, counters }
    }

    /// One reconciliation pass. `dir_files` is the number of files in the
    /// link's directory where it exists, `page` the body of the link's page
    /// where it could be fetched.
    pub fn check_downloaded(&self, dir_files: Option<usize>, page: Option<&str>) -> (outcome:
        Reconciliation)
        ensures
            outcome == reconciled(
                dir_files,
                match page {
                    Some(body) => Some(page_media_sources(body@).len() as usize),
                    None => None,
                },
            ),
    {
        let page_assets = match page {
            Some(body) => Some(count_media_files(body)),
            None => None,
        };
        reconcile(dir_files, page_assets)
    }

    /// The record for one file found in a link's directory, unless
    /// `inventory` holds it already.
    pub fn adopt_file(&self, link_id: usize, file: &FoundFile, inventory: &MediafilesService) -> (record:
        Option<CreateDto>)
        ensures
            adopted(inventory@, file@, link_id) == match record {
                Some(r) => Some(r@),
                None => None,
            },
    {
        let (hash, size) = calculate_hash_size(&file.data);
        if inventory.contains(&hash, &file.path) {
            None
        } else {
            let name = tail_after_last_slash(file.path.as_str());
            Some(CreateDto { name, path: file.path.clone(), hash, size, link_id })
        }
    }

    /// The records to insert for the files found in a link's directory:
    /// one for each file whose pair of hash and path neither `inventory`
    /// nor a file before it has, in the order of the files.
    pub fn add_files_to_link(&self, link_id: usize, files: &Vec<FoundFile>, inventory: &MediafilesService) -> (
    records: Vec<CreateDto>)
        ensures
            create_dto_views(records@) == new_records(inventory@, found_records(files@, link_id)),
    {
        let mut found: Vec<CreateDto> = Vec::new();
        let mut i: usize = 0;
        while i < files.len()
            invariant
                0 <= i <= files@.len(),
                create_dto_views(found@) == found_records(files@, link_id).subrange(0, i as int),
            decreases files@.len() - i,
        {
            let ghost kept = create_dto_views(found@);
            let file = &files[i];
            let name = tail_after_last_slash(file.path.as_str());
            found.push(asset_record(name, file.path.clone(), &file.data, link_id));
            proof {
                assert(create_dto_views(found@) =~= kept.push(found_record(file@, link_id)));
                assert(create_dto_views(found@) =~= found_records(files@, link_id).subrange(0, i + 1));
            }
            i = i + 1;
        }
        proof {
            assert(found_records(files@, link_id).subrange(0, i as int) =~= found_records(files@, link_id));
        }
        inventory.select_new(&found)
    }
}

} // verus!
