//! What holds of every plan: each purchased track stands in it exactly once,
//! the album's version of a track is the one that stays, and a run after a
//! complete one fetches nothing.

use vstd::prelude::*;
use crate::models::{SkipReason, SkippedView, TaskView};
use crate::download::{actual_target_of, DownloadOutcome};
use crate::sync::{
    chosen, chosen_among, chosen_is_for_the_track, deduplicated, from_album, is_chosen,
    is_satisfied, plan_of, probe_paths, scanned, skip_reason, to_download, to_skip,
};

verus! {

/// How many of `tasks` are for the track `id`.
pub open spec fn occurrences(tasks: Seq<TaskView>, id: u64) -> nat
    decreases tasks.len(),
{
    if tasks.len() == 0 {
        0
    } else if tasks.last().track.id == id {
        occurrences(tasks.drop_last(), id) + 1
    } else {
        occurrences(tasks.drop_last(), id)
    }
}

/// How many of `skipped` are for the track `id`.
pub open spec fn skipped_occurrences(skipped: Seq<SkippedView>, id: u64) -> nat
    decreases skipped.len(),
{
    if skipped.len() == 0 {
        0
    } else if skipped.last().track.id == id {
        skipped_occurrences(skipped.drop_last(), id) + 1
    } else {
        skipped_occurrences(skipped.drop_last(), id)
    }
}

/// Whether some task is for the track `id`.
pub open spec fn is_purchased(tasks: Seq<TaskView>, id: u64) -> bool {
    exists|i: int| 0 <= i < tasks.len() && (#[trigger] tasks[i]).track.id == id
}

/// The last position among `tasks` of a task for the track `id`; with
/// `album_only`, of one that is from an album.
pub open spec fn last_for(tasks: Seq<TaskView>, id: u64, album_only: bool) -> Option<int>
    decreases tasks.len(),
{
    if tasks.len() == 0 {
        None
    } else if tasks.last().track.id == id && (!album_only || from_album(tasks.last())) {
        Some(tasks.len() - 1)
    } else {
        last_for(tasks.drop_last(), id, album_only)
    }
}

proof fn last_for_is_sound(tasks: Seq<TaskView>, id: u64, album_only: bool)
    ensures
        match last_for(tasks, id, album_only) {
            Some(k) => 0 <= k < tasks.len() && tasks[k].track.id == id && (album_only
                ==> from_album(tasks[k])),
            None => forall|i: int|
                0 <= i < tasks.len() ==> !((#[trigger] tasks[i]).track.id == id && (!album_only
                    || from_album(tasks[i]))),
        },
    decreases tasks.len(),
{
    if tasks.len() > 0 {
        last_for_is_sound(tasks.drop_last(), id, album_only);
        if last_for(tasks, id, album_only) is None {
            assert forall|i: int| 0 <= i < tasks.len() implies !((#[trigger] tasks[i]).track.id
                == id && (!album_only || from_album(tasks[i]))) by {
                if i < tasks.len() - 1 {
                    assert(tasks.drop_last()[i] == tasks[i]);
                }
            }
        }
    }
}

/// The task that stands for a track is the last one from an album of more
/// than one track, where there is one, and else the last one for the track:
/// the album's version wins over a track bought on its own, and among
/// versions of one kind the later wins.
pub proof fn album_version_wins(tasks: Seq<TaskView>, id: u64)
    ensures
        chosen(tasks, id) == (if last_for(tasks, id, true) is Some {
            last_for(tasks, id, true)
        } else {
            last_for(tasks, id, false)
        }),
    decreases tasks.len(),
{
    if tasks.len() > 0 {
        let init = tasks.drop_last();
        album_version_wins(init, id);
        last_for_is_sound(init, id, true);
        last_for_is_sound(init, id, false);
        chosen_is_for_the_track(init, id);
        let before = chosen(init, id);
        if before is Some {
            assert(init[before->0] == tasks[before->0]);
        }
    }
}

proof fn occurrences_among(tasks: Seq<TaskView>, n: int, id: u64)
    requires
        0 <= n <= tasks.len(),
    ensures
        occurrences(chosen_among(tasks, n), id) == (if chosen(tasks, id) is Some && chosen(
            tasks,
            id,
        )->0 < n {
            1nat
        } else {
            0nat
        }),
    decreases n,
{
    chosen_is_for_the_track(tasks, id);
    if n > 0 {
        occurrences_among(tasks, n - 1, id);
        chosen_is_for_the_track(tasks, tasks[n - 1].track.id);
        if is_chosen(tasks, n - 1) {
            assert(chosen_among(tasks, n).drop_last() =~= chosen_among(tasks, n - 1));
            assert(chosen_among(tasks, n).last() == tasks[n - 1]);
        }
    }
}

/// After deduplication each purchased track has exactly one task, and no
/// other track has any.
pub proof fn deduplicated_holds_each_track_once(tasks: Seq<TaskView>, id: u64)
    ensures
        occurrences(deduplicated(tasks), id) == (if is_purchased(tasks, id) {
            1nat
        } else {
            0nat
        }),
{
    occurrences_among(tasks, tasks.len() as int, id);
    chosen_is_for_the_track(tasks, id);
}

proof fn classification_keeps_every_task(
    tasks: Seq<TaskView>,
    existing: Set<Seq<char>>,
    dry_run: bool,
    id: u64,
)
    ensures
        occurrences(to_download(tasks, existing, dry_run), id) + skipped_occurrences(
            to_skip(tasks, existing, dry_run),
            id,
        ) == occurrences(tasks, id),
        to_download(tasks, existing, dry_run).len() + to_skip(tasks, existing, dry_run).len()
            == tasks.len(),
    decreases tasks.len(),
{
    if tasks.len() > 0 {
        classification_keeps_every_task(tasks.drop_last(), existing, dry_run, id);
        let down = to_download(tasks.drop_last(), existing, dry_run);
        let skip = to_skip(tasks.drop_last(), existing, dry_run);
        match skip_reason(tasks.last(), existing, dry_run) {
            Some(reason) => {
                let entry = SkippedView {
                    track: tasks.last().track,
                    target_path: tasks.last().target_path,
                    reason,
                };
                assert(skip.push(entry).drop_last() =~= skip);
            },
            None => {
                assert(down.push(tasks.last()).drop_last() =~= down);
            },
        }
    }
}

/// In every plan each purchased track stands exactly once, among the
/// downloads or among the skipped, and no other track stands in it. The
/// plan's count of tracks is the number of its entries.
pub proof fn plan_holds_each_track_once(
    tasks: Seq<TaskView>,
    existing: Set<Seq<char>>,
    dry_run: bool,
    id: u64,
)
    ensures
        occurrences(plan_of(tasks, existing, dry_run).downloads, id) + skipped_occurrences(
            plan_of(tasks, existing, dry_run).skipped,
            id,
        ) == (if is_purchased(tasks, id) {
            1nat
        } else {
            0nat
        }),
        plan_of(tasks, existing, dry_run).downloads.len() + plan_of(
            tasks,
            existing,
            dry_run,
        ).skipped.len() == plan_of(tasks, existing, dry_run).total_tracks,
{
    deduplicated_holds_each_track_once(tasks, id);
    classification_keeps_every_task(deduplicated(tasks), existing, dry_run, id);
}

proof fn occurs_at_least_once(tasks: Seq<TaskView>, i: int)
    requires
        0 <= i < tasks.len(),
    ensures
        occurrences(tasks, tasks[i].track.id) >= 1,
    decreases tasks.len(),
{
    if i < tasks.len() - 1 {
        occurs_at_least_once(tasks.drop_last(), i);
    }
}

proof fn skipped_occurs_at_least_once(skipped: Seq<SkippedView>, i: int)
    requires
        0 <= i < skipped.len(),
    ensures
        skipped_occurrences(skipped, skipped[i].track.id) >= 1,
    decreases skipped.len(),
{
    if i < skipped.len() - 1 {
        skipped_occurs_at_least_once(skipped.drop_last(), i);
    }
}

/// No track is both fetched and skipped, and none is fetched twice or
/// skipped twice.
pub proof fn downloads_and_skipped_are_disjoint(
    tasks: Seq<TaskView>,
    existing: Set<Seq<char>>,
    dry_run: bool,
)
    ensures
        forall|i: int, j: int|
            0 <= i < plan_of(tasks, existing, dry_run).downloads.len() && 0 <= j < plan_of(
                tasks,
                existing,
                dry_run,
            ).skipped.len() ==> (#[trigger] plan_of(tasks, existing, dry_run).downloads[i]).track.id
                != (#[trigger] plan_of(tasks, existing, dry_run).skipped[j]).track.id,
        forall|id: u64| occurrences(plan_of(tasks, existing, dry_run).downloads, id) <= 1,
        forall|id: u64| skipped_occurrences(plan_of(tasks, existing, dry_run).skipped, id) <= 1,
{
    let plan = plan_of(tasks, existing, dry_run);
    assert forall|id: u64|
        occurrences(plan.downloads, id) <= 1 && skipped_occurrences(plan.skipped, id) <= 1 by {
        plan_holds_each_track_once(tasks, existing, dry_run, id);
    }
    assert forall|i: int, j: int|
        0 <= i < plan.downloads.len() && 0 <= j < plan.skipped.len() implies (
    #[trigger] plan.downloads[i]).track.id != (#[trigger] plan.skipped[j]).track.id by {
        let id = plan.downloads[i].track.id;
        plan_holds_each_track_once(tasks, existing, dry_run, id);
        occurs_at_least_once(plan.downloads, i);
        if plan.skipped[j].track.id == id {
            skipped_occurs_at_least_once(plan.skipped, j);
        }
    }
}

proof fn chosen_among_are_tasks(tasks: Seq<TaskView>, n: int, j: int)
    requires
        0 <= n <= tasks.len(),
        0 <= j < chosen_among(tasks, n).len(),
    ensures
        exists|i: int| 0 <= i < n && #[trigger] tasks[i] == chosen_among(tasks, n)[j],
    decreases n,
{
    if is_chosen(tasks, n - 1) {
        if j < chosen_among(tasks, n - 1).len() {
            chosen_among_are_tasks(tasks, n - 1, j);
        } else {
            assert(tasks[n - 1] == chosen_among(tasks, n)[j]);
        }
    } else {
        chosen_among_are_tasks(tasks, n - 1, j);
    }
}

proof fn nothing_to_fetch(tasks: Seq<TaskView>, existing: Set<Seq<char>>, dry_run: bool)
    requires
        forall|j: int| 0 <= j < tasks.len() ==> existing.contains((#[trigger] tasks[j]).target_path),
    ensures
        to_download(tasks, existing, dry_run).len() == 0,
        to_skip(tasks, existing, dry_run).len() == tasks.len(),
        forall|j: int|
            0 <= j < tasks.len() ==> (#[trigger] to_skip(tasks, existing, dry_run)[j]).reason
                == SkipReason::AlreadyExists,
    decreases tasks.len(),
{
    if tasks.len() > 0 {
        let init = tasks.drop_last();
        assert forall|j: int| 0 <= j < init.len() implies existing.contains(
            (#[trigger] init[j]).target_path,
        ) by {
            assert(init[j] == tasks[j]);
        }
        nothing_to_fetch(init, existing, dry_run);
        assert(existing.contains(tasks[tasks.len() - 1].target_path));
    }
}

/// A run that finds the file of every task fetches nothing: planning on
/// the result of the scan gives no download, and every track is skipped as
/// already there, whether or not the run only reports.
pub proof fn rerun_fetches_nothing(tasks: Seq<TaskView>, files: Set<Seq<char>>, dry_run: bool)
    requires
        forall|i: int| 0 <= i < tasks.len() ==> is_satisfied(#[trigger] tasks[i], files),
    ensures
        plan_of(tasks, scanned(tasks, files), dry_run).downloads.len() == 0,
        plan_of(tasks, scanned(tasks, files), dry_run).skipped.len() == plan_of(
            tasks,
            scanned(tasks, files),
            dry_run,
        ).total_tracks,
        forall|j: int|
            0 <= j < plan_of(tasks, scanned(tasks, files), dry_run).skipped.len() ==> (
            #[trigger] plan_of(tasks, scanned(tasks, files), dry_run).skipped[j]).reason
                == SkipReason::AlreadyExists,
{
    let kept = deduplicated(tasks);
    let existing = scanned(tasks, files);
    assert forall|j: int| 0 <= j < kept.len() implies existing.contains(
        (#[trigger] kept[j]).target_path,
    ) by {
        chosen_among_are_tasks(tasks, tasks.len() as int, j);
        let i = choose|i: int| 0 <= i < tasks.len() && #[trigger] tasks[i] == kept[j];
        assert(is_satisfied(tasks[i], files));
    }
    nothing_to_fetch(kept, existing, dry_run);
}

/// The file of a completed download is one that the scan looks at: the
/// planned path, or the planned path under the extension of the second
/// encoding, which is looked at for a task planned under another
/// extension.
pub proof fn stored_file_is_probed(task: TaskView, outcome: DownloadOutcome)
    requires
        outcome == DownloadOutcome::FlacFallback ==> task.file_extension != ".flac"@,
    ensures
        exists|k: int|
            0 <= k < probe_paths(task).len() && #[trigger] probe_paths(task)[k] == actual_target_of(
                task,
                outcome,
            ),
{
    match outcome {
        DownloadOutcome::Mp3 => {
            assert(probe_paths(task)[0] == actual_target_of(task, outcome));
        },
        DownloadOutcome::FlacFallback => {
            assert(probe_paths(task)[1] == actual_target_of(task, outcome));
        },
    }
}

/// After a run in which every task was completed, the next run fetches
/// nothing: with the file of each task stored where its encoding puts it,
/// the scan finds every task, and the plan skips every track as already
/// there.
pub proof fn complete_run_is_final(
    tasks: Seq<TaskView>,
    outcomes: Seq<DownloadOutcome>,
    files: Set<Seq<char>>,
    dry_run: bool,
)
    requires
        outcomes.len() == tasks.len(),
        forall|i: int|
            0 <= i < tasks.len() ==> files.contains(
                #[trigger] actual_target_of(tasks[i], outcomes[i]),
            ),
        forall|i: int|
            0 <= i < tasks.len() && outcomes[i] == DownloadOutcome::FlacFallback ==> (
            #[trigger] tasks[i]).file_extension != ".flac"@,
    ensures
        plan_of(tasks, scanned(tasks, files), dry_run).downloads.len() == 0,
        forall|j: int|
            0 <= j < plan_of(tasks, scanned(tasks, files), dry_run).skipped.len() ==> (
            #[trigger] plan_of(tasks, scanned(tasks, files), dry_run).skipped[j]).reason
                == SkipReason::AlreadyExists,
{
    assert forall|i: int| 0 <= i < tasks.len() implies is_satisfied(#[trigger] tasks[i], files) by {
        stored_file_is_probed(tasks[i], outcomes[i]);
        assert(files.contains(actual_target_of(tasks[i], outcomes[i])));
    }
    rerun_fetches_nothing(tasks, files, dry_run);
}

} // verus!
