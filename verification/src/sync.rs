//! From purchases to a plan: one task per track, one task per track
//! identity, and for each the decision to fetch it or to leave it alone.

use std::collections::HashMap;
use vstd::prelude::*;
use crate::models::{
    skipped_views, task_views, track_views, Album, AlbumId, AlbumView, DownloadTask, PlanView,
    PurchaseList, SkipReason, SkippedTrack, SkippedView, SyncPlan, TaskView, Track, TrackView,
};
use crate::path::{track_path, track_path_of, with_extension, with_extension_of};
use crate::text::{chars_of, decimal, push_decimal, push_str, str_eq, string_of};

verus! {

/// Whether a task is filed under an album of more than one track, rather
/// than under the album made up for a track bought on its own.
pub open spec fn from_album(task: TaskView) -> bool {
    task.album.tracks_count > 1
}

/// The position of the task that stands for the track `id` among `tasks`,
/// if any task is for that track. Going through the tasks in order, a task
/// replaces the one chosen so far for its track, except that a task from an
/// album is never replaced by one that is not.
pub open spec fn chosen(tasks: Seq<TaskView>, id: u64) -> Option<int>
    decreases tasks.len(),
{
    if tasks.len() == 0 {
        None
    } else {
        let before = chosen(tasks.drop_last(), id);
        let task = tasks.last();
        if task.track.id != id {
            before
        } else if before is Some && from_album(tasks[before->0]) && !from_album(task) {
            before
        } else {
            Some(tasks.len() - 1)
        }
    }
}

/// Whether the task at position `i` is the one that stands for its track.
pub open spec fn is_chosen(tasks: Seq<TaskView>, i: int) -> bool {
    chosen(tasks, tasks[i].track.id) == Some(i)
}

/// The chosen tasks among the first `n`, in the order of `tasks`.
pub open spec fn chosen_among(tasks: Seq<TaskView>, n: int) -> Seq<TaskView>
    decreases n,
{
    if n <= 0 {
        Seq::empty()
    } else if is_chosen(tasks, n - 1) {
        chosen_among(tasks, n - 1).push(tasks[n - 1])
    } else {
        chosen_among(tasks, n - 1)
    }
}

/// One task per track: the chosen tasks, in the order of `tasks`.
pub open spec fn deduplicated(tasks: Seq<TaskView>) -> Seq<TaskView> {
    chosen_among(tasks, tasks.len() as int)
}

/// Why a task is left alone, if it is: its file is there already, or the
/// run only reports.
pub open spec fn skip_reason(task: TaskView, existing: Set<Seq<char>>, dry_run: bool) -> Option<
    SkipReason,
> {
    if existing.contains(task.target_path) {
        Some(SkipReason::AlreadyExists)
    } else if dry_run {
        Some(SkipReason::DryRun)
    } else {
        None
    }
}

/// The tasks of `tasks` that are to be fetched, in order.
pub open spec fn to_download(tasks: Seq<TaskView>, existing: Set<Seq<char>>, dry_run: bool) -> Seq<
    TaskView,
>
    decreases tasks.len(),
{
    if tasks.len() == 0 {
        Seq::empty()
    } else if skip_reason(tasks.last(), existing, dry_run) is None {
        to_download(tasks.drop_last(), existing, dry_run).push(tasks.last())
    } else {
        to_download(tasks.drop_last(), existing, dry_run)
    }
}

/// The tasks of `tasks` that are left alone, in order, each with its reason.
pub open spec fn to_skip(tasks: Seq<TaskView>, existing: Set<Seq<char>>, dry_run: bool) -> Seq<
    SkippedView,
>
    decreases tasks.len(),
{
    if tasks.len() == 0 {
        Seq::empty()
    } else {
        match skip_reason(tasks.last(), existing, dry_run) {
            Some(reason) => to_skip(tasks.drop_last(), existing, dry_run).push(
                SkippedView {
                    track: tasks.last().track,
                    target_path: tasks.last().target_path,
                    reason,
                },
            ),
            None => to_skip(tasks.drop_last(), existing, dry_run),
        }
    }
}

/// The plan for `tasks`: one task per track, each either fetched or left
/// alone.
pub open spec fn plan_of(tasks: Seq<TaskView>, existing: Set<Seq<char>>, dry_run: bool) -> PlanView {
    PlanView {
        downloads: to_download(deduplicated(tasks), existing, dry_run),
        skipped: to_skip(deduplicated(tasks), existing, dry_run),
        total_tracks: deduplicated(tasks).len(),
    }
}

/// The target paths whose files are taken to be there already.
pub struct ExistingFiles {
    paths: Vec<String>,
}

impl View for ExistingFiles {
    type V = Set<Seq<char>>;

    closed spec fn view(&self) -> Set<Seq<char>> {
        Set::new(|p: Seq<char>| exists|i: int| 0 <= i < self.paths@.len() && self.paths@[i]@ == p)
    }
}

impl ExistingFiles {
    /// No path at all.
    pub fn new() -> (r: Self)
        ensures
            r@ == Set::<Seq<char>>::empty(),
    {
        let r = ExistingFiles { paths: Vec::new() };
        assert(r@ =~= Set::<Seq<char>>::empty());
        r
    }

    /// Adds one path.
    pub fn insert(&mut self, path: String)
        ensures
            final(self)@ == old(self)@.insert(path@),
    {
        let ghost before = self.paths@;
        self.paths.push(path);
        proof {
            assert forall|p: Seq<char>| self@.contains(p) <==> old(self)@.insert(path@).contains(
                p,
            ) by {
                if self@.contains(p) {
                    let i = choose|i: int| 0 <= i < self.paths@.len() && self.paths@[i]@ == p;
                    if i < before.len() {
                        assert(before[i]@ == p);
                    }
                }
                if old(self)@.contains(p) {
                    let i = choose|i: int| 0 <= i < before.len() && before[i]@ == p;
                    assert(self.paths@[i]@ == p);
                }
                if p == path@ {
                    assert(self.paths@[before.len() as int]@ == p);
                }
            }
            assert(self@ =~= old(self)@.insert(path@));
        }
    }

    /// Whether `path` is among the paths.
    pub fn contains(&self, path: &str) -> (r: bool)
        ensures
            r == self@.contains(path@),
    {
        let wanted = path.to_owned();
        let mut i: usize = 0;
        while i < self.paths.len()
            invariant
                i <= self.paths.len(),
                wanted@ == path@,
                forall|j: int| 0 <= j < i ==> self.paths@[j]@ != path@,
            decreases self.paths.len() - i,
        {
            if self.paths[i] == wanted {
                return true;
            }
            i += 1;
        }
        false
    }
}

/// The album made up for a track bought on its own: it has the track's
/// title and performer, one disc and one track.
pub open spec fn standalone_album_of(track: TrackView) -> AlbumView {
    AlbumView {
        id: "standalone-"@ + decimal(track.id as nat),
        title: track.title,
        version: None,
        artist: track.performer,
        media_count: 1,
        tracks_count: 1,
        tracks: None,
    }
}

/// Makes up the album under which a track bought on its own is filed.
pub fn standalone_album(track: &Track) -> (album: Album)
    ensures
        album@ == standalone_album_of(track@),
{
    let mut id: Vec<char> = Vec::new();
    push_str(&mut id, "standalone-");
    push_decimal(&mut id, track.id.0);
    assert(id@ =~= "standalone-"@ + decimal(track.id.0 as nat));
    Album {
        id: AlbumId(string_of(&id)),
        title: track.title.clone(),
        version: None,
        artist: track.performer.clone(),
        media_count: 1,
        tracks_count: 1,
        tracks: None,
    }
}

/// The task for one track of an album.
pub open spec fn task_for(base: Seq<char>, album: AlbumView, track: TrackView, ext: Seq<char>) -> TaskView {
    TaskView {
        track,
        album,
        target_path: track_path_of(base, album, track, ext),
        file_extension: ext,
    }
}

/// The tasks for the first `n` of an album's listed tracks, in order. An
/// album whose tracks are not listed has none.
pub open spec fn album_tasks(base: Seq<char>, album: AlbumView, ext: Seq<char>, n: int) -> Seq<
    TaskView,
>
    decreases n,
{
    if n <= 0 || album.tracks is None {
        Seq::empty()
    } else {
        album_tasks(base, album, ext, n - 1).push(
            task_for(base, album, album.tracks->0.items[n - 1], ext),
        )
    }
}

/// The number of tracks that an album lists.
pub open spec fn listed_tracks(album: AlbumView) -> int {
    match album.tracks {
        Some(page) => page.items.len() as int,
        None => 0,
    }
}

/// The tasks for every listed track of the first `n` albums, album by
/// album.
pub open spec fn albums_tasks(base: Seq<char>, albums: Seq<AlbumView>, ext: Seq<char>, n: int) -> Seq<
    TaskView,
>
    decreases n,
{
    if n <= 0 {
        Seq::empty()
    } else {
        albums_tasks(base, albums, ext, n - 1) + album_tasks(
            base,
            albums[n - 1],
            ext,
            listed_tracks(albums[n - 1]),
        )
    }
}

/// The tasks for the first `n` tracks bought on their own, each filed under
/// its made-up album.
pub open spec fn standalone_tasks(base: Seq<char>, tracks: Seq<TrackView>, ext: Seq<char>, n: int) -> Seq<
    TaskView,
>
    decreases n,
{
    if n <= 0 {
        Seq::empty()
    } else {
        standalone_tasks(base, tracks, ext, n - 1).push(
            task_for(base, standalone_album_of(tracks[n - 1]), tracks[n - 1], ext),
        )
    }
}

/// The views of a list of albums, in order.
pub open spec fn album_views(albums: Seq<Album>) -> Seq<AlbumView> {
    albums.map_values(|a: Album| a@)
}

/// Every task that the purchases call for: the listed tracks of each album
/// in order, then the tracks bought on their own.
pub open spec fn collected(
    base: Seq<char>,
    albums: Seq<AlbumView>,
    tracks: Seq<TrackView>,
    ext: Seq<char>,
) -> Seq<TaskView> {
    albums_tasks(base, albums, ext, albums.len() as int) + standalone_tasks(
        base,
        tracks,
        ext,
        tracks.len() as int,
    )
}

/// Turns purchases into tasks, one for each listed track of each album and
/// one for each track bought on its own, with the path each is written to.
pub fn collect_tasks(purchases: &PurchaseList, base_dir: &str, ext: &'static str) -> (tasks: Vec<
    DownloadTask,
>)
    ensures
        task_views(tasks@) == collected(
            base_dir@,
            album_views(purchases.albums@),
            track_views(purchases.tracks@),
            ext@,
        ),
{
    let ghost albums = album_views(purchases.albums@);
    let ghost singles = track_views(purchases.tracks@);
    let mut all_tasks: Vec<DownloadTask> = Vec::new();
    let mut a: usize = 0;
    while a < purchases.albums.len()
        invariant
            a <= purchases.albums.len(),
            albums == album_views(purchases.albums@),
            task_views(all_tasks@) == albums_tasks(base_dir@, albums, ext@, a as int),
        decreases purchases.albums.len() - a,
    {
        let album = &purchases.albums[a];
        assert(albums[a as int] == album@);
        match &album.tracks {
            Some(page) => {
                let ghost done = all_tasks@;
                let mut t: usize = 0;
                while t < page.items.len()
                    invariant
                        t <= page.items.len(),
                        album.tracks == Some(*page),
                        task_views(done) == albums_tasks(base_dir@, albums, ext@, a as int),
                        task_views(all_tasks@) == task_views(done) + album_tasks(
                            base_dir@,
                            album@,
                            ext@,
                            t as int,
                        ),
                    decreases page.items.len() - t,
                {
                    let track = &page.items[t];
                    let target = track_path(base_dir, album, track, ext);
                    let task = DownloadTask {
                        track: track.clone(),
                        album: album.clone(),
                        target_path: target,
                        file_extension: ext,
                    };
                    assert(album@.tracks->0.items[t as int] == track@);
                    assert(task@ == task_for(base_dir@, album@, track@, ext@));
                    let ghost before = all_tasks@;
                    all_tasks.push(task);
                    assert(task_views(all_tasks@) =~= task_views(before).push(task@));
                    assert(task_views(all_tasks@) =~= task_views(done) + album_tasks(
                        base_dir@,
                        album@,
                        ext@,
                        t + 1,
                    ));
                    t += 1;
                }
                assert(listed_tracks(album@) == page.items.len());
            },
            None => {
                assert(task_views(all_tasks@) =~= task_views(all_tasks@) + album_tasks(
                    base_dir@,
                    album@,
                    ext@,
                    0,
                ));
            },
        }
        a += 1;
    }
    let ghost from_albums = all_tasks@;
    let mut s: usize = 0;
    while s < purchases.tracks.len()
        invariant
            s <= purchases.tracks.len(),
            singles == track_views(purchases.tracks@),
            task_views(all_tasks@) == task_views(from_albums) + standalone_tasks(
                base_dir@,
                singles,
                ext@,
                s as int,
            ),
        decreases purchases.tracks.len() - s,
    {
        let track = &purchases.tracks[s];
        let album = standalone_album(track);
        let target = track_path(base_dir, &album, track, ext);
        let task = DownloadTask {
            track: track.clone(),
            album,
            target_path: target,
            file_extension: ext,
        };
        assert(singles[s as int] == track@);
        let ghost before = all_tasks@;
        all_tasks.push(task);
        assert(task_views(all_tasks@) =~= task_views(before).push(task@));
        assert(task_views(all_tasks@) =~= task_views(from_albums) + standalone_tasks(
            base_dir@,
            singles,
            ext@,
            s + 1,
        ));
        s += 1;
    }
    all_tasks
}

/// The task chosen for a track is one of the tasks, and it is for that
/// track.
pub proof fn chosen_is_for_the_track(tasks: Seq<TaskView>, id: u64)
    ensures
        chosen(tasks, id) is Some ==> 0 <= chosen(tasks, id)->0 < tasks.len() && tasks[chosen(
            tasks,
            id,
        )->0].track.id == id,
        chosen(tasks, id) is None ==> forall|i: int|
            0 <= i < tasks.len() ==> (#[trigger] tasks[i]).track.id != id,
    decreases tasks.len(),
{
    if tasks.len() > 0 {
        chosen_is_for_the_track(tasks.drop_last(), id);
        if chosen(tasks, id) is None {
            assert forall|i: int| 0 <= i < tasks.len() implies (#[trigger] tasks[i]).track.id
                != id by {
                if i < tasks.len() - 1 {
                    assert(tasks.drop_last()[i] == tasks[i]);
                }
            }
        }
    }
}

fn choose_tasks(tasks: &Vec<DownloadTask>) -> (winners: HashMap<u64, usize>)
    ensures
        forall|id: u64|
            winners@.contains_key(id) <==> chosen(task_views(tasks@), id) is Some,
        forall|id: u64|
            winners@.contains_key(id) ==> #[trigger] winners@[id] as int == chosen(
                task_views(tasks@),
                id,
            )->0,
{
    let ghost all = task_views(tasks@);
    let mut winners: HashMap<u64, usize> = HashMap::new();
    let mut i: usize = 0;
    while i < tasks.len()
        invariant
            i <= tasks.len(),
            all == task_views(tasks@),
            forall|id: u64| winners@.contains_key(id) <==> chosen(all.take(i as int), id) is Some,
            forall|id: u64|
                winners@.contains_key(id) ==> #[trigger] winners@[id] as int == chosen(
                    all.take(i as int),
                    id,
                )->0,
        decreases tasks.len() - i,
    {
        let id = tasks[i].track.id.0;
        let ghost before = winners@;
        proof {
            assert(all.take(i + 1).drop_last() =~= all.take(i as int));
            assert(all.take(i + 1).last() == tasks@[i as int]@);
            chosen_is_for_the_track(all.take(i as int), id);
        }
        let keep = match winners.get(&id) {
            Some(k) => tasks[*k].album.tracks_count > 1 && tasks[i].album.tracks_count <= 1,
            None => false,
        };
        if !keep {
            winners.insert(id, i);
        }
        proof {
            assert forall|other: u64| winners@.contains_key(other) <==> chosen(
                all.take(i + 1),
                other,
            ) is Some by {}
            assert forall|other: u64| winners@.contains_key(other) implies #[trigger] winners@[other] as int
                == chosen(all.take(i + 1), other)->0 by {}
        }
        i += 1;
    }
    assert(all.take(tasks.len() as int) =~= all);
    winners
}

/// Builds the plan of one run from the tasks that the purchases call for.
///
/// Where several tasks are for the same track, one stands for it: the last
/// of them, except that a task from an album of more than one track is never
/// replaced by one that is not. The tasks that remain keep their order. Each
/// is left alone when its path is among `existing`, or else when `dry_run`
/// is set, and is fetched otherwise.
pub fn build_sync_plan(tasks: Vec<DownloadTask>, existing: &ExistingFiles, dry_run: bool) -> (plan:
    SyncPlan)
    ensures
        plan@ == plan_of(task_views(tasks@), existing@, dry_run),
{
    let ghost all = task_views(tasks@);
    let ghost input = tasks@;
    let winners = choose_tasks(&tasks);
    let count = tasks.len();
    let mut downloads: Vec<DownloadTask> = Vec::new();
    let mut skipped: Vec<SkippedTrack> = Vec::new();
    let mut total_tracks: usize = 0;
    let mut i: usize = 0;
    for task in it: tasks
        invariant
            it.seq() == input,
            all == task_views(input),
            input.len() == count,
            i == it.index(),
            total_tracks == chosen_among(all, i as int).len() <= i,
            forall|id: u64| winners@.contains_key(id) <==> chosen(all, id) is Some,
            forall|id: u64|
                winners@.contains_key(id) ==> #[trigger] winners@[id] as int == chosen(all, id)->0,
            task_views(downloads@) == to_download(chosen_among(all, i as int), existing@, dry_run),
            skipped_views(skipped@) == to_skip(chosen_among(all, i as int), existing@, dry_run),
    {
        assert(task@ == all[i as int]);
        let id = task.track.id.0;
        let is_winner = match winners.get(&id) {
            Some(k) => *k == i,
            None => false,
        };
        assert(is_winner == is_chosen(all, i as int));
        if is_winner {
            let ghost sofar = chosen_among(all, i as int);
            let ghost next = chosen_among(all, i + 1);
            assert(next == sofar.push(task@));
            assert(next.drop_last() =~= sofar);
            if existing.contains(task.target_path.as_str()) {
                let ghost old_skipped = skipped@;
                let entry = SkippedTrack {
                    track: task.track,
                    target_path: task.target_path,
                    reason: SkipReason::AlreadyExists,
                };
                skipped.push(entry);
                assert(skipped_views(skipped@) =~= skipped_views(old_skipped).push(entry@));
            } else if dry_run {
                let ghost old_skipped = skipped@;
                let entry = SkippedTrack {
                    track: task.track,
                    target_path: task.target_path,
                    reason: SkipReason::DryRun,
                };
                skipped.push(entry);
                assert(skipped_views(skipped@) =~= skipped_views(old_skipped).push(entry@));
            } else {
                let ghost old_downloads = downloads@;
                let ghost view = task@;
                downloads.push(task);
                assert(task_views(downloads@) =~= task_views(old_downloads).push(view));
            }
            total_tracks += 1;
        }
        i += 1;
    }
    assert(input.len() == all.len());
    SyncPlan { downloads, skipped, total_tracks }
}

/// The paths under which the file of a task may be stored: its target, and
/// the target under each other known audio extension.
pub open spec fn probe_paths(task: TaskView) -> Seq<Seq<char>> {
    seq![task.target_path] + (if task.file_extension != ".flac"@ {
        seq![with_extension_of(task.target_path, "flac"@)]
    } else {
        Seq::empty()
    }) + (if task.file_extension != ".mp3"@ {
        seq![with_extension_of(task.target_path, "mp3"@)]
    } else {
        Seq::empty()
    })
}

/// Whether the file of a task is there: one of its probe paths is among the
/// files that exist and are not empty.
pub open spec fn is_satisfied(task: TaskView, files: Set<Seq<char>>) -> bool {
    exists|k: int| 0 <= k < probe_paths(task).len() && files.contains(#[trigger] probe_paths(task)[k])
}

/// The target paths of the tasks whose file is there. A file found under
/// another extension counts for the task's own target path.
pub open spec fn scanned(tasks: Seq<TaskView>, files: Set<Seq<char>>) -> Set<Seq<char>> {
    Set::new(
        |p: Seq<char>|
            exists|i: int|
                0 <= i < tasks.len() && (#[trigger] tasks[i]).target_path == p && is_satisfied(
                    tasks[i],
                    files,
                ),
    )
}

/// Lists the paths to look at for one task, the target first.
pub fn probe_list(task: &DownloadTask) -> (paths: Vec<String>)
    ensures
        paths@.map_values(|p: String| p@) == probe_paths(task@),
{
    let mut paths: Vec<String> = Vec::new();
    paths.push(task.target_path.clone());
    let target = chars_of(task.target_path.as_str());
    if !str_eq(task.file_extension, ".flac") {
        let alt = with_extension(&target, &chars_of("flac"));
        paths.push(string_of(&alt));
    }
    if !str_eq(task.file_extension, ".mp3") {
        let alt = with_extension(&target, &chars_of("mp3"));
        paths.push(string_of(&alt));
    }
    assert(paths@.map_values(|p: String| p@) =~= probe_paths(task@));
    paths
}

/// Finds the tasks whose file is there already, given the files that exist
/// and are not empty. An empty file counts as missing.
pub fn scan_existing(tasks: &Vec<DownloadTask>, files: &ExistingFiles) -> (existing: ExistingFiles)
    ensures
        existing@ == scanned(task_views(tasks@), files@),
{
    let ghost all = task_views(tasks@);
    let mut existing = ExistingFiles::new();
    let mut i: usize = 0;
    while i < tasks.len()
        invariant
            i <= tasks.len(),
            all == task_views(tasks@),
            existing@ == scanned(all.take(i as int), files@),
        decreases tasks.len() - i,
    {
        let task = &tasks[i];
        let probes = probe_list(task);
        let ghost views = probes@.map_values(|p: String| p@);
        let mut found = false;
        let mut k: usize = 0;
        while k < probes.len() && !found
            invariant
                k <= probes.len(),
                views == probes@.map_values(|p: String| p@),
                views == probe_paths(task@),
                found ==> is_satisfied(task@, files@),
                !found ==> forall|j: int| 0 <= j < k ==> !files@.contains(#[trigger] views[j]),
            decreases probes.len() - k + (if found { 0int } else { 1int }),
        {
            if files.contains(probes[k].as_str()) {
                assert(files@.contains(views[k as int]));
                found = true;
            } else {
                k += 1;
            }
        }
        let ghost before = existing@;
        if found {
            existing.insert(task.target_path.clone());
        }
        proof {
            let prev = all.take(i as int);
            let next = all.take(i + 1);
            assert(next[i as int] == task@);
            assert(found == is_satisfied(task@, files@));
            assert forall|p: Seq<char>| existing@.contains(p) <==> scanned(next, files@).contains(
                p,
            ) by {
                if scanned(prev, files@).contains(p) {
                    let j = choose|j: int|
                        0 <= j < prev.len() && (#[trigger] prev[j]).target_path == p
                            && is_satisfied(prev[j], files@);
                    assert(next[j] == prev[j]);
                }
                if scanned(next, files@).contains(p) {
                    let j = choose|j: int|
                        0 <= j < next.len() && (#[trigger] next[j]).target_path == p
                            && is_satisfied(next[j], files@);
                    if j < i {
                        assert(prev[j] == next[j]);
                    }
                }
            }
            assert(existing@ =~= scanned(next, files@));
        }
        i += 1;
    }
    assert(all.take(tasks.len() as int) =~= all);
    existing
}

} // verus!
