//! Carrying out a plan: which encoding to ask for, where a download is
//! written before and after it is complete, and how the results of all
//! tasks add up.

use vstd::prelude::*;
use crate::bandcamp::{
    album_for_item, find_url, item_album, item_track, listed_url, track_for_item,
    BandcampPurchases, ExtractedTrack, ItemView,
};
use crate::models::{
    skipped_views, task_views, Album, AlbumView, BandcampCollectionItem,
    BandcampDownloadError, BandcampSyncResult, DiscNumber, DownloadError, DownloadTask,
    SkipReason, SkippedTrack, SkippedView, SyncResult, TaskView, Track, TrackId, TrackNumber,
    TrackView,
};
use crate::path::{
    join, joined, sanitize_component, sanitized, track_path, track_path_of, with_extension,
    with_extension_of,
};
use crate::text::{chars_of, decimal, push_decimal, push_str, slice_of, string_of};

verus! {

/// How many downloads run at the same time.
pub const CONCURRENT_DOWNLOADS: usize = 4;

/// The encoding asked for first.
pub const FORMAT_ID_MP3_320: u8 = 5;

/// The encoding asked for where the first is not to be had.
pub const FORMAT_ID_CD_QUALITY: u8 = 6;

/// The encoding in which a track was fetched.
#[derive(Debug, Clone, Copy, PartialEq, Eq, Structural)]
pub enum DownloadOutcome {
    Mp3,
    FlacFallback,
}

/// The message for a track that is to be had in neither encoding, given
/// the error met for the second.
pub open spec fn unavailable_message(error: Seq<char>) -> Seq<char> {
    "unavailable in both MP3 320 and CD Quality: "@ + error
}

/// The extension under which a track is stored, given the encoding it came
/// in.
pub open spec fn actual_extension_of(task: TaskView, outcome: DownloadOutcome) -> Seq<char> {
    match outcome {
        DownloadOutcome::Mp3 => task.file_extension,
        DownloadOutcome::FlacFallback => ".flac"@,
    }
}

/// The path at which a track is stored, given the encoding it came in:
/// the planned path, or the planned path under the extension of the second
/// encoding.
pub open spec fn actual_target_of(task: TaskView, outcome: DownloadOutcome) -> Seq<char> {
    match outcome {
        DownloadOutcome::Mp3 => task.target_path,
        DownloadOutcome::FlacFallback => with_extension_of(task.target_path, "flac"@),
    }
}

/// The path to which a download is written while it is incomplete: beside
/// `target`, under the extension `ext` without its first character,
/// followed by `.tmp`.
pub open spec fn temp_path_beside(target: Seq<char>, ext: Seq<char>) -> Seq<char> {
    with_extension_of(target, ext.skip(1) + ".tmp"@)
}

/// The path to which a download is written while it is incomplete.
pub open spec fn temp_path_of(task: TaskView, outcome: DownloadOutcome) -> Seq<char> {
    temp_path_beside(actual_target_of(task, outcome), actual_extension_of(task, outcome))
}

/// The paths at which an abandoned download may have left a file: the
/// temporary path for either encoding, both beside the planned path.
pub open spec fn cleanup_paths_of(task: TaskView) -> Seq<Seq<char>> {
    seq![
        temp_path_beside(task.target_path, task.file_extension),
        temp_path_beside(task.target_path, ".flac"@),
    ]
}

fn temp_beside(target: &Vec<char>, ext: &str) -> (r: Vec<char>)
    requires
        ext@.len() > 0,
    ensures
        r@ == temp_path_beside(target@, ext@),
{
    let e = chars_of(ext);
    let mut tail = slice_of(&e, 1, e.len());
    push_str(&mut tail, ".tmp");
    proof {
        assert(e@.subrange(1, e@.len() as int) =~= ext@.skip(1));
    }
    with_extension(target, &tail)
}

/// The extension under which a track is stored.
pub fn actual_extension(task: &DownloadTask, outcome: DownloadOutcome) -> (r: &'static str)
    ensures
        r@ == actual_extension_of(task@, outcome),
{
    match outcome {
        DownloadOutcome::Mp3 => task.file_extension,
        DownloadOutcome::FlacFallback => ".flac",
    }
}

/// The path at which a track is stored once its download is complete.
pub fn actual_target(task: &DownloadTask, outcome: DownloadOutcome) -> (r: String)
    ensures
        r@ == actual_target_of(task@, outcome),
{
    match outcome {
        DownloadOutcome::Mp3 => task.target_path.clone(),
        DownloadOutcome::FlacFallback => string_of(
            &with_extension(&chars_of(task.target_path.as_str()), &chars_of("flac")),
        ),
    }
}

/// The path to which a download is written while it is incomplete. It
/// lies in the directory of the final path.
pub fn temp_path(task: &DownloadTask, outcome: DownloadOutcome) -> (r: String)
    requires
        task.file_extension@.len() > 0,
    ensures
        r@ == temp_path_of(task@, outcome),
{
    let target = chars_of(actual_target(task, outcome).as_str());
    let ext = actual_extension(task, outcome);
    proof {
        reveal_strlit(".flac");
    }
    string_of(&temp_beside(&target, ext))
}

/// The paths to remove, as far as they exist, after a task has failed.
pub fn cleanup_paths(task: &DownloadTask) -> (r: Vec<String>)
    requires
        task.file_extension@.len() > 0,
    ensures
        r@.map_values(|p: String| p@) == cleanup_paths_of(task@),
{
    let target = chars_of(task.target_path.as_str());
    let mut r: Vec<String> = Vec::new();
    r.push(string_of(&temp_beside(&target, task.file_extension)));
    proof {
        reveal_strlit(".flac");
    }
    r.push(string_of(&temp_beside(&target, ".flac")));
    assert(r@.map_values(|p: String| p@) =~= cleanup_paths_of(task@));
    r
}

/// The message for a download that was answered with a status other than
/// success; `status` is the status as the transport prints it.
pub fn status_failure(status: &str) -> (r: String)
    ensures
        r@ == "Download returned HTTP "@ + status@,
{
    let mut msg: Vec<char> = Vec::new();
    push_str(&mut msg, "Download returned HTTP ");
    push_str(&mut msg, status);
    string_of(&msg)
}

/// What has happened to the download of a task.
#[derive(Debug)]
pub enum FetchEvent {
    /// Nothing yet.
    Start,
    /// The service has answered the request for the address of the file
    /// in the encoding `format_id`, with the address or with an error.
    Address { format_id: u8, answer: Result<String, String> },
    /// The file has been fetched, written and moved to its place.
    Stored { outcome: DownloadOutcome },
    /// Fetching, writing or moving the file has failed.
    Broken { error: String },
}

/// What to do next for the download of a task.
#[derive(Debug)]
pub enum FetchStep {
    /// Ask the service for the address of the file in this encoding.
    RequestUrl { format_id: u8 },
    /// Fetch the file from `url` into `temp_path`, and when it is complete
    /// move it to `target`.
    Store { url: String, temp_path: String, target: String, outcome: DownloadOutcome },
    /// Remove these files as far as they exist; the task has failed with
    /// this error.
    GiveUp { remove: Vec<String>, error: String },
    /// The task is complete.
    Done { outcome: DownloadOutcome },
}

pub enum FetchStepView {
    RequestUrl { format_id: u8 },
    Store { url: Seq<char>, temp_path: Seq<char>, target: Seq<char>, outcome: DownloadOutcome },
    GiveUp { remove: Seq<Seq<char>>, error: Seq<char> },
    Done { outcome: DownloadOutcome },
}

impl View for FetchStep {
    type V = FetchStepView;

    open spec fn view(&self) -> FetchStepView {
        match *self {
            FetchStep::RequestUrl { format_id } => FetchStepView::RequestUrl { format_id },
            FetchStep::Store { url, temp_path, target, outcome } => FetchStepView::Store {
                url: url@,
                temp_path: temp_path@,
                target: target@,
                outcome,
            },
            FetchStep::GiveUp { remove, error } => FetchStepView::GiveUp {
                remove: remove@.map_values(|p: String| p@),
                error: error@,
            },
            FetchStep::Done { outcome } => FetchStepView::Done { outcome },
        }
    }
}

/// The encoding that an answer for `format_id` stands for: the second
/// one for its number, the first one for any other.
pub open spec fn outcome_for(format_id: u8) -> DownloadOutcome {
    if format_id == FORMAT_ID_CD_QUALITY {
        DownloadOutcome::FlacFallback
    } else {
        DownloadOutcome::Mp3
    }
}

/// The step that follows an event. The first encoding is asked for first.
/// An address is fetched from, into the temporary file beside the place
/// where the track is stored in that encoding. Without an address for the
/// first encoding the second is asked for; without one for the second the
/// task fails with a message that names both. A failure while the file is
/// fetched or written fails the task too, and every failure removes the
/// temporary files of both encodings. A file in its place completes the
/// task.
pub open spec fn step_after(task: TaskView, event: FetchEvent) -> FetchStepView {
    match event {
        FetchEvent::Start => FetchStepView::RequestUrl { format_id: FORMAT_ID_MP3_320 },
        FetchEvent::Address { format_id, answer: Ok(url) } => FetchStepView::Store {
            url: url@,
            temp_path: temp_path_of(task, outcome_for(format_id)),
            target: actual_target_of(task, outcome_for(format_id)),
            outcome: outcome_for(format_id),
        },
        FetchEvent::Address { format_id, answer: Err(error) } => if format_id
            == FORMAT_ID_CD_QUALITY {
            FetchStepView::GiveUp {
                remove: cleanup_paths_of(task),
                error: unavailable_message(error@),
            }
        } else {
            FetchStepView::RequestUrl { format_id: FORMAT_ID_CD_QUALITY }
        },
        FetchEvent::Stored { outcome } => FetchStepView::Done { outcome },
        FetchEvent::Broken { error } => FetchStepView::GiveUp {
            remove: cleanup_paths_of(task),
            error: error@,
        },
    }
}

/// Decides what to do next for the download of a task, given what has
/// happened last.
pub fn next_step(task: &DownloadTask, event: FetchEvent) -> (step: FetchStep)
    requires
        task.file_extension@.len() > 0,
    ensures
        step@ == step_after(task@, event),
{
    match event {
        FetchEvent::Start => FetchStep::RequestUrl { format_id: FORMAT_ID_MP3_320 },
        FetchEvent::Address { format_id, answer } => {
            let outcome = if format_id == FORMAT_ID_CD_QUALITY {
                DownloadOutcome::FlacFallback
            } else {
                DownloadOutcome::Mp3
            };
            match answer {
                Ok(url) => FetchStep::Store {
                    url,
                    temp_path: temp_path(task, outcome),
                    target: actual_target(task, outcome),
                    outcome,
                },
                Err(error) => {
                    if format_id == FORMAT_ID_CD_QUALITY {
                        let mut msg: Vec<char> = Vec::new();
                        push_str(&mut msg, "unavailable in both MP3 320 and CD Quality: ");
                        push_str(&mut msg, error.as_str());
                        FetchStep::GiveUp { remove: cleanup_paths(task), error: string_of(&msg) }
                    } else {
                        FetchStep::RequestUrl { format_id: FORMAT_ID_CD_QUALITY }
                    }
                },
            }
        },
        FetchEvent::Stored { outcome } => FetchStep::Done { outcome },
        FetchEvent::Broken { error } => FetchStep::GiveUp { remove: cleanup_paths(task), error },
    }
}

/// How one task ended.
#[derive(Debug)]
pub enum TaskResult {
    Done { task: DownloadTask, outcome: DownloadOutcome },
    Failed { failure: DownloadError },
}

pub enum TaskResultView {
    Done { task: TaskView, outcome: DownloadOutcome },
    Failed { task: TaskView, error: Seq<char> },
}

impl View for TaskResult {
    type V = TaskResultView;

    open spec fn view(&self) -> TaskResultView {
        match *self {
            TaskResult::Done { task, outcome } => TaskResultView::Done { task: task@, outcome },
            TaskResult::Failed { failure } => TaskResultView::Failed {
                task: failure.task@,
                error: failure.error@,
            },
        }
    }
}

/// The views of a list of results, in order.
pub open spec fn result_views(results: Seq<TaskResult>) -> Seq<TaskResultView> {
    results.map_values(|r: TaskResult| r@)
}

pub struct FailureView {
    pub task: TaskView,
    pub error: Seq<char>,
}

impl View for DownloadError {
    type V = FailureView;

    open spec fn view(&self) -> FailureView {
        FailureView { task: self.task@, error: self.error@ }
    }
}

pub struct SyncResultView {
    pub succeeded: Seq<TaskView>,
    pub failed: Seq<FailureView>,
    pub skipped: Seq<SkippedView>,
    pub fallback_count: nat,
}

impl View for SyncResult {
    type V = SyncResultView;

    open spec fn view(&self) -> SyncResultView {
        SyncResultView {
            succeeded: task_views(self.succeeded@),
            failed: self.failed@.map_values(|e: DownloadError| e@),
            skipped: skipped_views(self.skipped@),
            fallback_count: self.fallback_count as nat,
        }
    }
}

/// The tasks among `results` that were completed, in order.
pub open spec fn succeeded_of(results: Seq<TaskResultView>) -> Seq<TaskView>
    decreases results.len(),
{
    if results.len() == 0 {
        Seq::empty()
    } else {
        match results.last() {
            TaskResultView::Done { task, .. } => succeeded_of(results.drop_last()).push(task),
            TaskResultView::Failed { .. } => succeeded_of(results.drop_last()),
        }
    }
}

/// The failures among `results`, in order.
pub open spec fn failed_of(results: Seq<TaskResultView>) -> Seq<FailureView>
    decreases results.len(),
{
    if results.len() == 0 {
        Seq::empty()
    } else {
        match results.last() {
            TaskResultView::Done { .. } => failed_of(results.drop_last()),
            TaskResultView::Failed { task, error } => failed_of(results.drop_last()).push(
                FailureView { task, error },
            ),
        }
    }
}

/// How many of `results` were completed in the second encoding.
pub open spec fn fallbacks_of(results: Seq<TaskResultView>) -> nat
    decreases results.len(),
{
    if results.len() == 0 {
        0
    } else {
        match results.last() {
            TaskResultView::Done { outcome: DownloadOutcome::FlacFallback, .. } => fallbacks_of(
                results.drop_last(),
            ) + 1,
            _ => fallbacks_of(results.drop_last()),
        }
    }
}

/// Adds up the results of the tasks of one run: the completed tasks, the
/// failures with their messages, the number of tasks completed in the
/// second encoding, and the skipped tracks as the plan had them.
pub fn collect_results(results: Vec<TaskResult>, skipped: Vec<SkippedTrack>) -> (r: SyncResult)
    ensures
        r@ == (SyncResultView {
            succeeded: succeeded_of(result_views(results@)),
            failed: failed_of(result_views(results@)),
            skipped: skipped_views(skipped@),
            fallback_count: fallbacks_of(result_views(results@)),
        }),
{
    let ghost input = results@;
    let ghost all = result_views(results@);
    let count = results.len();
    let mut succeeded: Vec<DownloadTask> = Vec::new();
    let mut failed: Vec<DownloadError> = Vec::new();
    let mut fallback_count: usize = 0;
    let mut n: usize = 0;
    assert(task_views(succeeded@) =~= Seq::empty());
    assert(failed@.map_values(|e: DownloadError| e@) =~= Seq::empty());
    for result in it: results
        invariant
            it.seq() == input,
            all == result_views(input),
            input.len() == count,
            n == it.index(),
            task_views(succeeded@) == succeeded_of(all.take(n as int)),
            failed@.map_values(|e: DownloadError| e@) == failed_of(all.take(n as int)),
            fallback_count == fallbacks_of(all.take(n as int)) <= n,
    {
        proof {
            assert(all.take(n + 1).drop_last() =~= all.take(n as int));
            assert(all.take(n + 1).last() == result@);
        }
        match result {
            TaskResult::Done { task, outcome } => {
                if matches!(outcome, DownloadOutcome::FlacFallback) {
                    fallback_count += 1;
                }
                let ghost before = succeeded@;
                let ghost view = task@;
                succeeded.push(task);
                assert(task_views(succeeded@) =~= task_views(before).push(view));
            },
            TaskResult::Failed { failure } => {
                let ghost before = failed@;
                let ghost view = failure@;
                failed.push(failure);
                assert(failed@.map_values(|e: DownloadError| e@) =~= before.map_values(
                    |e: DownloadError| e@,
                ).push(view));
            },
        }
        n += 1;
    }
    assert(all.take(count as int) =~= all);
    SyncResult { succeeded, failed, skipped, fallback_count }
}

/// Every completed task is counted once: a run ends with as many results
/// as it had tasks, each among the completed or among the failed, and the
/// tasks completed in the second encoding are some of the completed.
pub proof fn results_add_up(results: Seq<TaskResultView>)
    ensures
        succeeded_of(results).len() + failed_of(results).len() == results.len(),
        fallbacks_of(results) <= succeeded_of(results).len(),
    decreases results.len(),
{
    if results.len() > 0 {
        results_add_up(results.drop_last());
    }
}

/// The key under which the download page of an item is listed: the kind
/// of sale followed by its number.
pub open spec fn redownload_key_of(item: ItemView) -> Seq<char> {
    item.sale_item_type + decimal(item.sale_item_id as nat)
}

/// An item in words: the band and the title.
pub open spec fn description_of(item: ItemView) -> Seq<char> {
    item.band_name + " - "@ + item.item_title
}

/// The directory in which the tracks of an album are stored.
pub open spec fn album_dir_of(target_dir: Seq<char>, album: AlbumView) -> Seq<char> {
    joined(joined(target_dir, sanitized(album.artist.name)), sanitized(album.title))
}

/// The message for an item whose download page is not listed.
pub open spec fn missing_url_message(key: Seq<char>) -> Seq<char> {
    "No redownload URL found (key: "@ + key + ")"@
}

/// Describes an item by its band and title.
pub fn item_description(item: &BandcampCollectionItem) -> (r: String)
    ensures
        r@ == description_of(item@),
{
    let mut out = chars_of(item.band_name.as_str());
    push_str(&mut out, " - ");
    push_str(&mut out, item.item_title.as_str());
    string_of(&out)
}

/// Builds the key under which the download page of an item is listed.
pub fn redownload_key(item: &BandcampCollectionItem) -> (r: String)
    ensures
        r@ == redownload_key_of(item@),
{
    let mut out = chars_of(item.sale_item_type.as_str());
    push_decimal(&mut out, item.sale_item_id);
    string_of(&out)
}

/// Builds the directory in which the tracks of an album are stored.
pub fn album_dir(target_dir: &str, album: &Album) -> (r: String)
    ensures
        r@ == album_dir_of(target_dir@, album@),
{
    let artist = chars_of(sanitize_component(album.artist.name.as_str()).as_str());
    let title = chars_of(sanitize_component(album.title.as_str()).as_str());
    string_of(&join(&join(&chars_of(target_dir), &artist), &title))
}

/// What is known of an item before anything is fetched.
#[derive(Debug)]
pub enum ItemStep {
    /// The item cannot be downloaded.
    Fail { failure: BandcampDownloadError },
    /// The item can be downloaded from the page at `url`; whether it has to
    /// be depends on what the directory `album_dir` holds.
    Check { url: String, album: Album, album_dir: String },
}

/// Prepares the download of one item: finds its download page and the
/// album and directory that it is stored under, or says why it cannot be
/// downloaded.
pub fn begin_item(purchases: &BandcampPurchases, item: &BandcampCollectionItem, target_dir: &str) -> (step:
    ItemStep)
    ensures
        match listed_url(purchases.redownload_urls@, redownload_key_of(item@)) {
            Some(address) => step matches ItemStep::Check { url, album, album_dir } && url@
                == address && album@ == item_album(item@) && album_dir@ == album_dir_of(
                target_dir@,
                item_album(item@),
            ),
            None => step matches ItemStep::Fail { failure } && failure.description@
                == description_of(item@) && failure.error@ == missing_url_message(
                redownload_key_of(item@),
            ),
        },
{
    let key = redownload_key(item);
    match find_url(&purchases.redownload_urls, &key) {
        Some(url) => {
            let album = album_for_item(item);
            let dir = album_dir(target_dir, &album);
            ItemStep::Check { url, album, album_dir: dir }
        },
        None => {
            let mut msg: Vec<char> = Vec::new();
            push_str(&mut msg, "No redownload URL found (key: ");
            push_str(&mut msg, key.as_str());
            push_str(&mut msg, ")");
            ItemStep::Fail {
                failure: BandcampDownloadError {
                    description: item_description(item),
                    error: string_of(&msg),
                },
            }
        },
    }
}

/// What to do with an item whose download page is known.
#[derive(Debug, Clone, Copy, PartialEq, Eq, Structural)]
pub enum ItemAction {
    /// Its files are there already.
    Skip,
    /// It would be downloaded, but the run only reports.
    Report,
    Download,
}

/// Decides what to do with an item: one that is stored already is
/// skipped, whatever the kind of run; another is reported in a run that
/// only reports, and else downloaded.
pub fn decide_item(already_synced: bool, dry_run: bool) -> (action: ItemAction)
    ensures
        action == (if already_synced {
            ItemAction::Skip
        } else if dry_run {
            ItemAction::Report
        } else {
            ItemAction::Download
        }),
{
    if already_synced {
        ItemAction::Skip
    } else if dry_run {
        ItemAction::Report
    } else {
        ItemAction::Download
    }
}

/// Whether the last segment of a path has the extension `m4a`.
pub open spec fn is_m4a_path(path: Seq<char>) -> bool {
    crate::path::file_name_start(path) < path.len() && crate::path::stem_end(path) < path.len()
        && path.skip(crate::path::stem_end(path)) == ".m4a"@
}

/// Whether an album counts as stored: its directory holds a file with the
/// extension `m4a`. `entries` are the paths of the directory's entries.
pub fn has_m4a_files(entries: &Vec<String>) -> (r: bool)
    ensures
        r == exists|i: int| 0 <= i < entries@.len() && is_m4a_path(#[trigger] entries@[i]@),
{
    let suffix = chars_of(".m4a");
    let mut i: usize = 0;
    while i < entries.len()
        invariant
            i <= entries.len(),
            suffix@ == ".m4a"@,
            forall|j: int| 0 <= j < i ==> !is_m4a_path(#[trigger] entries@[j]@),
        decreases entries.len() - i,
    {
        let path = chars_of(entries[i].as_str());
        let stem = with_extension(&path, &Vec::new());
        let start = crate::path::segment_start(&path);
        if start < path.len() && stem.len() < path.len() {
            assert(stem@.len() == crate::path::stem_end(path@)) by {
                crate::path::stem_end_in_range(path@);
            }
            let ext = slice_of(&path, stem.len(), path.len());
            assert(ext@ =~= path@.skip(stem@.len() as int));
            if crate::text::same_chars(&ext, &suffix) {
                return true;
            }
        } else {
            proof {
                crate::path::stem_end_in_range(path@);
            }
        }
        i += 1;
    }
    false
}

/// The move of one unpacked file to the place where it is stored.
#[derive(Debug)]
pub struct Placement {
    pub from: String,
    pub to: String,
}

pub struct PlacementView {
    pub from: Seq<char>,
    pub to: Seq<char>,
}

impl View for Placement {
    type V = PlacementView;

    open spec fn view(&self) -> PlacementView {
        PlacementView { from: self.from@, to: self.to@ }
    }
}

pub struct ExtractedView {
    pub track_number: u8,
    pub title: Seq<char>,
    pub temp_path: Seq<char>,
}

impl View for ExtractedTrack {
    type V = ExtractedView;

    open spec fn view(&self) -> ExtractedView {
        ExtractedView {
            track_number: self.track_number,
            title: self.title@,
            temp_path: self.temp_path@,
        }
    }
}

/// The views of a list of unpacked tracks, in order.
pub open spec fn extracted_views(tracks: Seq<ExtractedTrack>) -> Seq<ExtractedView> {
    tracks.map_values(|t: ExtractedTrack| t@)
}

/// The identity of a track that came out of an archive: the number of the
/// item times 1000 plus the track number, wrapping around.
pub open spec fn archive_track_id(item_id: u64, number: u8) -> u64 {
    item_id.wrapping_mul(1000).wrapping_add(number as u64)
}

/// The track that one of several unpacked files stands for: it has the
/// number and title that its name gave it, and the album's artist.
pub open spec fn archive_track(item: ItemView, album: AlbumView, file: ExtractedView) -> TrackView {
    TrackView {
        id: archive_track_id(item.item_id, file.track_number),
        title: file.title,
        track_number: file.track_number,
        media_number: 1,
        duration: 0,
        performer: album.artist,
        isrc: None,
    }
}

/// The track that the only file of a download stands for: it has the
/// item's number and title, and the album's artist.
pub open spec fn lone_track(item: ItemView, album: AlbumView) -> TrackView {
    TrackView { performer: album.artist, ..item_track(item) }
}

/// Where the first `n` of several unpacked files go.
pub open spec fn archive_placements(
    item: ItemView,
    album: AlbumView,
    target_dir: Seq<char>,
    files: Seq<ExtractedView>,
    n: int,
) -> Seq<PlacementView>
    decreases n,
{
    if n <= 0 {
        Seq::empty()
    } else {
        archive_placements(item, album, target_dir, files, n - 1).push(
            PlacementView {
                from: files[n - 1].temp_path,
                to: track_path_of(target_dir, album, archive_track(item, album, files[n - 1]), ".m4a"@),
            },
        )
    }
}

/// Where the unpacked files of an item go. Several files are stored under
/// the numbers and titles that their names gave them; a single file under
/// the item's own title, as track 1; none goes nowhere.
pub open spec fn placements_of(
    item: ItemView,
    album: AlbumView,
    target_dir: Seq<char>,
    files: Seq<ExtractedView>,
) -> Seq<PlacementView> {
    if files.len() > 1 {
        archive_placements(item, album, target_dir, files, files.len() as int)
    } else if files.len() == 1 {
        seq![
            PlacementView {
                from: files[0].temp_path,
                to: track_path_of(target_dir, album, lone_track(item, album), ".m4a"@),
            },
        ]
    } else {
        Seq::empty()
    }
}

/// Decides where each unpacked file of an item is stored.
pub fn placements(
    item: &BandcampCollectionItem,
    album: &Album,
    target_dir: &str,
    extracted: &Vec<ExtractedTrack>,
) -> (r: Vec<Placement>)
    ensures
        r@.map_values(|p: Placement| p@) == placements_of(
            item@,
            album@,
            target_dir@,
            extracted_views(extracted@),
        ),
{
    let ghost files = extracted_views(extracted@);
    let mut r: Vec<Placement> = Vec::new();
    if extracted.len() > 1 {
        let mut i: usize = 0;
        assert(r@.map_values(|p: Placement| p@) =~= Seq::empty());
        while i < extracted.len()
            invariant
                i <= extracted.len(),
                files == extracted_views(extracted@),
                r@.map_values(|p: Placement| p@) == archive_placements(
                    item@,
                    album@,
                    target_dir@,
                    files,
                    i as int,
                ),
            decreases extracted.len() - i,
        {
            let file = &extracted[i];
            assert(files[i as int] == file@);
            let track = Track {
                id: TrackId(item.item_id.wrapping_mul(1000).wrapping_add(file.track_number as u64)),
                title: file.title.clone(),
                track_number: TrackNumber(file.track_number),
                media_number: DiscNumber(1),
                duration: 0,
                performer: album.artist.clone(),
                isrc: None,
            };
            assert(track@ == archive_track(item@, album@, file@));
            let to = track_path(target_dir, album, &track, ".m4a");
            let ghost before = r@;
            let placement = Placement { from: file.temp_path.clone(), to };
            r.push(placement);
            assert(r@.map_values(|p: Placement| p@) =~= before.map_values(|p: Placement| p@).push(
                placement@,
            ));
            i += 1;
        }
    } else if extracted.len() == 1 {
        let own = track_for_item(item);
        let track = Track {
            id: own.id,
            title: own.title,
            track_number: own.track_number,
            media_number: own.media_number,
            duration: own.duration,
            performer: album.artist.clone(),
            isrc: own.isrc,
        };
        assert(track@ == lone_track(item@, album@));
        let to = track_path(target_dir, album, &track, ".m4a");
        assert(files[0] == extracted@[0]@);
        r.push(Placement { from: extracted[0].temp_path.clone(), to });
        assert(r@.map_values(|p: Placement| p@) =~= placements_of(
            item@,
            album@,
            target_dir@,
            files,
        ));
    } else {
        assert(r@.map_values(|p: Placement| p@) =~= Seq::empty());
    }
    r
}

/// How the work on one item ended.
#[derive(Debug)]
pub enum ItemOutcome {
    Skipped,
    Reported,
    Downloaded { tracks: usize },
    Failed { failure: BandcampDownloadError },
}

impl BandcampSyncResult {
    /// The result of a run before any item was looked at.
    pub fn new() -> (r: Self)
        ensures
            r.downloaded == 0,
            r.skipped == 0,
            r.would_download == 0,
            r.failed@.len() == 0,
    {
        BandcampSyncResult { downloaded: 0, skipped: 0, would_download: 0, failed: Vec::new() }
    }

    /// Counts the outcome of one item: a skipped or a reported item once, a
    /// downloaded item by its tracks; a failure is added to the list.
    pub fn record(&mut self, outcome: ItemOutcome)
        requires
            old(self).skipped < usize::MAX,
            old(self).would_download < usize::MAX,
            outcome matches ItemOutcome::Downloaded { tracks } ==> old(self).downloaded + tracks
                <= usize::MAX,
        ensures
            final(self).downloaded == old(self).downloaded + (match outcome {
                ItemOutcome::Downloaded { tracks } => tracks as int,
                _ => 0,
            }),
            final(self).skipped == old(self).skipped + (if outcome is Skipped {
                1int
            } else {
                0
            }),
            final(self).would_download == old(self).would_download + (if outcome is Reported {
                1int
            } else {
                0
            }),
            final(self).failed@ == (match outcome {
                ItemOutcome::Failed { failure } => old(self).failed@.push(failure),
                _ => old(self).failed@,
            }),
    {
        match outcome {
            ItemOutcome::Skipped => {
                self.skipped += 1;
            },
            ItemOutcome::Reported => {
                self.would_download += 1;
            },
            ItemOutcome::Downloaded { tracks } => {
                self.downloaded += tracks;
            },
            ItemOutcome::Failed { failure } => {
                self.failed.push(failure);
            },
        }
    }
}

/// How many of `skipped` were skipped for the reason `reason`.
pub open spec fn skipped_for(skipped: Seq<SkippedView>, reason: SkipReason) -> nat
    decreases skipped.len(),
{
    if skipped.len() == 0 {
        0
    } else if skipped.last().reason == reason {
        skipped_for(skipped.drop_last(), reason) + 1
    } else {
        skipped_for(skipped.drop_last(), reason)
    }
}

/// Counts the tracks that were skipped for one reason.
pub fn count_skipped(skipped: &Vec<SkippedTrack>, reason: SkipReason) -> (n: usize)
    ensures
        n == skipped_for(skipped_views(skipped@), reason),
{
    let ghost all = skipped_views(skipped@);
    let mut n: usize = 0;
    let mut i: usize = 0;
    while i < skipped.len()
        invariant
            i <= skipped.len(),
            all == skipped_views(skipped@),
            n == skipped_for(all.take(i as int), reason) <= i,
        decreases skipped.len() - i,
    {
        assert(all.take(i + 1).drop_last() =~= all.take(i as int));
        assert(all.take(i + 1).last() == skipped@[i as int]@);
        if skipped[i].reason == reason {
            n += 1;
        }
        i += 1;
    }
    assert(all.take(skipped@.len() as int) =~= all);
    n
}

/// The closing line of a run: how many tracks succeeded, how many of them
/// in the second encoding if any did, how many failed and how many were
/// skipped.
pub open spec fn summary_of(
    service: Seq<char>,
    succeeded: nat,
    fallbacks: nat,
    failed: nat,
    skipped: nat,
) -> Seq<char> {
    service + ": "@ + decimal(succeeded) + " succeeded"@ + (if fallbacks > 0 {
        " ("@ + decimal(fallbacks) + " as FLAC)"@
    } else {
        Seq::empty()
    }) + ", "@ + decimal(failed) + " failed, "@ + decimal(skipped) + " skipped"@
}

/// Words the closing line of a run.
pub fn summary_line(service: &str, result: &SyncResult) -> (r: String)
    ensures
        r@ == summary_of(
            service@,
            result.succeeded@.len(),
            result.fallback_count as nat,
            result.failed@.len(),
            result.skipped@.len(),
        ),
{
    let mut out = chars_of(service);
    push_str(&mut out, ": ");
    push_decimal(&mut out, result.succeeded.len() as u64);
    push_str(&mut out, " succeeded");
    if result.fallback_count > 0 {
        push_str(&mut out, " (");
        push_decimal(&mut out, result.fallback_count as u64);
        push_str(&mut out, " as FLAC)");
    }
    push_str(&mut out, ", ");
    push_decimal(&mut out, result.failed.len() as u64);
    push_str(&mut out, " failed, ");
    push_decimal(&mut out, result.skipped.len() as u64);
    push_str(&mut out, " skipped");
    assert(out@ =~= summary_of(
        service@,
        result.succeeded@.len(),
        result.fallback_count as nat,
        result.failed@.len(),
        result.skipped@.len(),
    ));
    string_of(&out)
}

/// The line that reports one failure: the album, the track and the last
/// error met.
pub fn failure_line(failure: &DownloadError) -> (r: String)
    ensures
        r@ == "  "@ + failure.task.album.title@ + " - "@ + failure.task.track.title@ + ": "@
            + failure.error@,
{
    let mut out = chars_of("  ");
    push_str(&mut out, failure.task.album.title.as_str());
    push_str(&mut out, " - ");
    push_str(&mut out, failure.task.track.title.as_str());
    push_str(&mut out, ": ");
    push_str(&mut out, failure.error.as_str());
    string_of(&out)
}

} // verus!
