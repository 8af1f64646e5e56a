//! What holds of the files of every download: the file that is being
//! written is never taken for a track, and it is among the files that are
//! removed after a failure.

use vstd::prelude::*;
use crate::download::{
    actual_target_of, cleanup_paths_of, temp_path_of, DownloadOutcome,
};
use crate::models::TaskView;
use crate::path::{
    dotted_extension_changes_the_path, extension_is_replaced_whole, has_file_name,
    replaced_extension_shape, with_extension_of,
};
use crate::sync::probe_paths;

verus! {

/// The extension of a temporary file: the extension of the track without
/// its first character, followed by `.tmp`.
pub open spec fn temp_extension(ext: Seq<char>) -> Seq<char> {
    ext.skip(1) + ".tmp"@
}

proof fn temp_extension_is_dotted(ext: Seq<char>)
    requires
        !ext.skip(1).contains('/'),
    ensures
        temp_extension(ext).len() > 0,
        temp_extension(ext).contains('.'),
        !temp_extension(ext).contains('/'),
        temp_extension(ext).last() == 'p',
{
    reveal_strlit(".tmp");
    let x = temp_extension(ext);
    let n = ext.skip(1).len() as int;
    assert(x[n] == '.');
    assert(x[n + 3] == 'p');
    if x.contains('/') {
        let i = choose|i: int| 0 <= i < x.len() && x[i] == '/';
        if i < n {
            assert(ext.skip(1)[i] == '/');
        }
    }
}

proof fn flac_is_plain()
    ensures
        "flac"@.len() == 4,
        !"flac"@.contains('/'),
        !"flac"@.contains('.'),
        "flac"@.last() == 'c',
        ".flac"@.skip(1) == "flac"@,
        "mp3"@.len() == 3,
        !"mp3"@.contains('/'),
        "mp3"@.last() == '3',
{
    reveal_strlit("flac");
    reveal_strlit(".flac");
    reveal_strlit("mp3");
    assert(".flac"@.skip(1) =~= "flac"@);
}

/// While a track is being fetched, its bytes go to a file that is never
/// taken for a track: the temporary path is not the path at which the
/// track is stored in the end, and it is none of the paths that a scan
/// looks at for the task. It is one of the paths that are cleaned up after
/// a failure. This holds of every task whose target has a last segment and
/// whose extension holds no separator.
pub proof fn temp_file_is_apart(task: TaskView, outcome: DownloadOutcome)
    requires
        has_file_name(task.target_path),
        task.file_extension.len() > 0,
        !task.file_extension.skip(1).contains('/'),
    ensures
        temp_path_of(task, outcome) != actual_target_of(task, outcome),
        forall|k: int|
            0 <= k < probe_paths(task).len() ==> #[trigger] probe_paths(task)[k] != temp_path_of(
                task,
                outcome,
            ),
        exists|k: int|
            0 <= k < cleanup_paths_of(task).len() && #[trigger] cleanup_paths_of(task)[k]
                == temp_path_of(task, outcome),
{
    let target = task.target_path;
    let own = temp_extension(task.file_extension);
    let other = temp_extension(".flac"@);
    flac_is_plain();
    temp_extension_is_dotted(task.file_extension);
    temp_extension_is_dotted(".flac"@);
    replaced_extension_shape(target, "flac"@);
    replaced_extension_shape(target, "mp3"@);
    replaced_extension_shape(target, own);
    replaced_extension_shape(target, other);
    dotted_extension_changes_the_path(target, own);
    dotted_extension_changes_the_path(target, other);
    let stored = with_extension_of(target, "flac"@);
    extension_is_replaced_whole(target, "flac"@, other);
    dotted_extension_changes_the_path(stored, other);
    let temp = temp_path_of(task, outcome);
    match outcome {
        DownloadOutcome::Mp3 => {
            assert(temp == with_extension_of(target, own));
            assert(cleanup_paths_of(task)[0] == temp);
        },
        DownloadOutcome::FlacFallback => {
            assert(temp == with_extension_of(target, other));
            assert(cleanup_paths_of(task)[1] == temp);
        },
    }
    assert(temp.last() == 'p');
    assert forall|k: int| 0 <= k < probe_paths(task).len() implies #[trigger] probe_paths(task)[k]
        != temp by {
        let probe = probe_paths(task)[k];
        assert(probe == target || probe == with_extension_of(target, "flac"@) || probe
            == with_extension_of(target, "mp3"@));
        if probe == with_extension_of(target, "flac"@) {
            assert(probe.last() == 'c');
        } else if probe == with_extension_of(target, "mp3"@) {
            assert(probe.last() == '3');
        }
    }
}

} // verus!
