use qoget::download::{actual_target, DownloadOutcome};
use qoget::models::{
    Album, AlbumId, Artist, DiscNumber, DownloadTask, PaginatedList, PurchaseList, SkipReason,
    SyncPlan, Track, TrackId, TrackNumber,
};
use qoget::sync::{
    build_sync_plan, collect_tasks, probe_list, scan_existing, standalone_album, ExistingFiles,
};

fn artist(name: &str) -> Artist {
    Artist { id: 1, name: name.to_string() }
}

fn track(id: u64, title: &str, number: u8, performer: &str) -> Track {
    Track {
        id: TrackId(id),
        title: title.to_string(),
        track_number: TrackNumber(number),
        media_number: DiscNumber(1),
        duration: 100,
        performer: artist(performer),
        isrc: None,
    }
}

fn album(id: &str, title: &str, by: &str, tracks: Vec<Track>, tracks_count: u16) -> Album {
    let total = tracks.len() as u64;
    Album {
        id: AlbumId(id.to_string()),
        title: title.to_string(),
        version: None,
        artist: artist(by),
        media_count: 1,
        tracks_count,
        tracks: Some(PaginatedList { offset: 0, limit: 50, total, items: tracks }),
    }
}

fn files(paths: &[&str]) -> ExistingFiles {
    let mut set = ExistingFiles::new();
    for p in paths {
        set.insert(p.to_string());
    }
    set
}

fn ids(tasks: &[DownloadTask]) -> Vec<u64> {
    tasks.iter().map(|t| t.track.id.0).collect()
}

fn skipped_ids(plan: &SyncPlan) -> Vec<(u64, SkipReason)> {
    plan.skipped.iter().map(|s| (s.track.id.0, s.reason)).collect()
}

#[test]
fn collect_tasks_lists_album_tracks_then_standalone_tracks() {
    let purchases = PurchaseList {
        albums: vec![
            album("a1", "First", "Band", vec![track(1, "One", 1, "Band"), track(2, "Two", 2, "Guest")], 2),
            Album { tracks: None, ..album("a2", "Unlisted", "Band", vec![], 9) },
            album("a3", "Third", "Other", vec![track(3, "Three", 1, "Other")], 1),
        ],
        tracks: vec![track(4, "Single", 7, "Solo")],
    };
    let tasks = collect_tasks(&purchases, "/music", ".mp3");
    assert_eq!(ids(&tasks), vec![1, 2, 3, 4]);
    assert_eq!(tasks[0].target_path, "/music/Band/First/01 - One.mp3");
    assert_eq!(tasks[1].target_path, "/music/Band/First/02 - Guest - Two.mp3");
    assert_eq!(tasks[2].target_path, "/music/Other/Third/01 - Three.mp3");
    assert_eq!(tasks[3].target_path, "/music/Solo/Single/07 - Single.mp3");
    assert_eq!(tasks[0].album.id.0, "a1");
    assert_eq!(tasks[0].album.tracks_count, 2);
    assert_eq!(tasks[3].album.id.0, "standalone-4");
    assert_eq!(tasks[3].album.tracks_count, 1);
    assert!(tasks.iter().all(|t| t.file_extension == ".mp3"));
}

#[test]
fn standalone_album_takes_title_and_performer_of_the_track() {
    let t = track(216020864, "Lonely", 3, "Someone");
    let a = standalone_album(&t);
    assert_eq!(a.id.0, "standalone-216020864");
    assert_eq!(a.title, "Lonely");
    assert_eq!(a.artist.name, "Someone");
    assert_eq!(a.media_count, 1);
    assert_eq!(a.tracks_count, 1);
    assert!(a.tracks.is_none());
    assert!(a.version.is_none());
}

fn task_from(album: &Album, t: &Track, path: &str) -> DownloadTask {
    DownloadTask {
        track: t.clone(),
        album: album.clone(),
        target_path: path.to_string(),
        file_extension: ".mp3",
    }
}

#[test]
fn album_version_wins_over_standalone_version() {
    let t = track(10, "Song", 1, "Band");
    let two = album("a", "Album", "Band", vec![], 2);
    let single = standalone_album(&t);

    // album first, standalone later: the album's version stays
    let plan = build_sync_plan(
        vec![task_from(&two, &t, "/m/album.mp3"), task_from(&single, &t, "/m/single.mp3")],
        &ExistingFiles::new(),
        false,
    );
    assert_eq!(plan.total_tracks, 1);
    assert_eq!(plan.downloads.len(), 1);
    assert_eq!(plan.downloads[0].target_path, "/m/album.mp3");
    assert_eq!(plan.downloads[0].album.tracks_count, 2);
    assert!(plan.skipped.is_empty());

    // standalone first, album later: the later one wins, which is the album's
    let plan = build_sync_plan(
        vec![task_from(&single, &t, "/m/single.mp3"), task_from(&two, &t, "/m/album.mp3")],
        &ExistingFiles::new(),
        false,
    );
    assert_eq!(plan.downloads.len(), 1);
    assert_eq!(plan.downloads[0].target_path, "/m/album.mp3");
}

#[test]
fn later_task_wins_among_versions_of_one_kind() {
    let t = track(10, "Song", 1, "Band");
    let first = album("a", "First", "Band", vec![], 5);
    let second = album("b", "Second", "Band", vec![], 3);
    let plan = build_sync_plan(
        vec![task_from(&first, &t, "/m/first.mp3"), task_from(&second, &t, "/m/second.mp3")],
        &ExistingFiles::new(),
        false,
    );
    assert_eq!(plan.downloads.len(), 1);
    assert_eq!(plan.downloads[0].target_path, "/m/second.mp3");

    let single = standalone_album(&t);
    let plan = build_sync_plan(
        vec![task_from(&single, &t, "/m/one.mp3"), task_from(&single, &t, "/m/two.mp3")],
        &ExistingFiles::new(),
        false,
    );
    assert_eq!(plan.downloads.len(), 1);
    assert_eq!(plan.downloads[0].target_path, "/m/two.mp3");

    // an album whose count is 1 or 0 does not count as an album
    let one = album("c", "One", "Band", vec![], 1);
    let plan = build_sync_plan(
        vec![task_from(&one, &t, "/m/one.mp3"), task_from(&single, &t, "/m/single.mp3")],
        &ExistingFiles::new(),
        false,
    );
    assert_eq!(plan.downloads[0].target_path, "/m/single.mp3");
}

#[test]
fn every_track_stands_in_the_plan_exactly_once() {
    let a = album("a", "Album", "Band", vec![], 3);
    let tasks = vec![
        task_from(&a, &track(1, "A", 1, "Band"), "/m/1.mp3"),
        task_from(&a, &track(2, "B", 2, "Band"), "/m/2.mp3"),
        task_from(&standalone_album(&track(1, "A", 1, "Band")), &track(1, "A", 1, "Band"), "/m/s1.mp3"),
        task_from(&a, &track(3, "C", 3, "Band"), "/m/3.mp3"),
        task_from(&a, &track(2, "B", 2, "Band"), "/m/2b.mp3"),
    ];
    let plan = build_sync_plan(tasks, &files(&["/m/3.mp3"]), false);
    assert_eq!(plan.total_tracks, 3);
    assert_eq!(ids(&plan.downloads), vec![1, 2]);
    assert_eq!(plan.downloads[0].target_path, "/m/1.mp3");
    assert_eq!(plan.downloads[1].target_path, "/m/2b.mp3");
    assert_eq!(skipped_ids(&plan), vec![(3, SkipReason::AlreadyExists)]);
    for d in &plan.downloads {
        assert!(plan.skipped.iter().all(|s| s.track.id != d.track.id));
    }
    assert_eq!(plan.downloads.len() + plan.skipped.len(), plan.total_tracks);
}

#[test]
fn dry_run_skips_what_would_be_fetched() {
    let a = album("a", "Album", "Band", vec![], 2);
    let tasks = vec![
        task_from(&a, &track(1, "A", 1, "Band"), "/m/1.mp3"),
        task_from(&a, &track(2, "B", 2, "Band"), "/m/2.mp3"),
    ];
    let plan = build_sync_plan(tasks, &files(&["/m/1.mp3"]), true);
    assert!(plan.downloads.is_empty());
    assert_eq!(
        skipped_ids(&plan),
        vec![(1, SkipReason::AlreadyExists), (2, SkipReason::DryRun)]
    );
    assert_eq!(plan.skipped[1].target_path, "/m/2.mp3");
    assert_eq!(plan.total_tracks, 2);
}

#[test]
fn empty_input_gives_an_empty_plan() {
    let plan = build_sync_plan(Vec::new(), &ExistingFiles::new(), false);
    assert!(plan.downloads.is_empty());
    assert!(plan.skipped.is_empty());
    assert_eq!(plan.total_tracks, 0);
}

#[test]
fn existing_files_hold_what_was_inserted() {
    let mut set = ExistingFiles::new();
    assert!(!set.contains("/a"));
    set.insert("/a".to_string());
    set.insert("/b".to_string());
    set.insert("/a".to_string());
    assert!(set.contains("/a"));
    assert!(set.contains("/b"));
    assert!(!set.contains("/c"));
    assert!(!set.contains("/A"));
}

#[test]
fn probes_are_the_target_and_the_other_extensions() {
    let a = album("a", "Album", "Band", vec![], 2);
    let t = task_from(&a, &track(1, "A", 1, "Band"), "/m/Band/Album/01 - A.mp3");
    assert_eq!(
        probe_list(&t),
        vec!["/m/Band/Album/01 - A.mp3".to_string(), "/m/Band/Album/01 - A.flac".to_string()]
    );
    let flac = DownloadTask { file_extension: ".flac", target_path: "/m/x.y.flac".to_string(), ..task_from(&a, &track(1, "A", 1, "Band"), "") };
    assert_eq!(probe_list(&flac), vec!["/m/x.y.flac".to_string(), "/m/x.y.mp3".to_string()]);
    let m4a = DownloadTask { file_extension: ".m4a", target_path: "/m/x.m4a".to_string(), ..task_from(&a, &track(1, "A", 1, "Band"), "") };
    assert_eq!(
        probe_list(&m4a),
        vec!["/m/x.m4a".to_string(), "/m/x.flac".to_string(), "/m/x.mp3".to_string()]
    );
}

#[test]
fn scan_counts_a_file_under_another_extension_for_the_planned_path() {
    let a = album("a", "Album", "Band", vec![], 3);
    let tasks = vec![
        task_from(&a, &track(1, "A", 1, "Band"), "/m/1.mp3"),
        task_from(&a, &track(2, "B", 2, "Band"), "/m/2.mp3"),
        task_from(&a, &track(3, "C", 3, "Band"), "/m/3.mp3"),
    ];
    let existing = scan_existing(&tasks, &files(&["/m/1.mp3", "/m/2.flac", "/m/3.mp3.tmp", "/m/3.m4a"]));
    assert!(existing.contains("/m/1.mp3"));
    assert!(existing.contains("/m/2.mp3"));
    assert!(!existing.contains("/m/2.flac"));
    assert!(!existing.contains("/m/3.mp3"));
}

#[test]
fn rerun_after_a_complete_run_fetches_nothing() {
    let purchases = PurchaseList {
        albums: vec![album(
            "a1",
            "First",
            "Band",
            vec![track(1, "One", 1, "Band"), track(2, "Two", 2, "Band")],
            2,
        )],
        tracks: vec![track(3, "Single", 1, "Solo")],
    };
    let tasks = collect_tasks(&purchases, "/music", ".mp3");
    let plan = build_sync_plan(tasks, &ExistingFiles::new(), false);
    assert_eq!(plan.downloads.len(), 3);

    // every task completes, the second in the fallback encoding
    let mut on_disk = ExistingFiles::new();
    for (i, task) in plan.downloads.iter().enumerate() {
        let outcome = if i == 1 { DownloadOutcome::FlacFallback } else { DownloadOutcome::Mp3 };
        on_disk.insert(actual_target(task, outcome));
    }
    assert!(on_disk.contains("/music/Band/First/02 - Two.flac"));

    let tasks = collect_tasks(&purchases, "/music", ".mp3");
    let existing = scan_existing(&tasks, &on_disk);
    let again = build_sync_plan(tasks, &existing, false);
    assert!(again.downloads.is_empty());
    assert_eq!(again.skipped.len(), 3);
    assert!(again.skipped.iter().all(|s| s.reason == SkipReason::AlreadyExists));
    assert_eq!(again.total_tracks, 3);
}

#[test]
fn plan_of_two_album_tracks_and_one_standalone_track() {
    let existing_track = track(1, "There", 1, "Band");
    let missing_track = track(2, "Missing", 2, "Band");
    let standalone = track(3, "Single", 1, "Solo");
    let a = album("a1", "Album", "Band", vec![existing_track.clone(), missing_track.clone()], 2);
    let tasks = vec![
        task_from(&standalone_album(&standalone), &standalone, "/music/Solo/Single/01 - Single.mp3"),
        task_from(&a, &existing_track, "/music/Band/Album/01 - There.mp3"),
        task_from(&a, &missing_track, "/music/Band/Album/02 - Missing.mp3"),
    ];
    let existing = scan_existing(&tasks, &files(&["/music/Band/Album/01 - There.mp3"]));
    let plan = build_sync_plan(tasks, &existing, false);
    assert_eq!(ids(&plan.downloads), vec![3, 2]);
    assert_eq!(skipped_ids(&plan), vec![(1, SkipReason::AlreadyExists)]);
    assert_eq!(plan.skipped[0].target_path, "/music/Band/Album/01 - There.mp3");
    assert_eq!(plan.total_tracks, 3);

    // every download succeeds
    let results: Vec<qoget::download::TaskResult> = plan
        .downloads
        .into_iter()
        .map(|task| qoget::download::TaskResult::Done { task, outcome: DownloadOutcome::Mp3 })
        .collect();
    let result = qoget::download::collect_results(results, plan.skipped);
    assert_eq!(result.succeeded.len(), 2);
    assert!(result.failed.is_empty());
    assert_eq!(result.skipped.len(), 1);
    assert_eq!(result.fallback_count, 0);
}

#[test]
fn ids_and_numbers_are_written_in_decimal() {
    assert_eq!(TrackId(216020864).to_text(), "216020864");
    assert_eq!(AlbumId("album-789".to_string()).to_text(), "album-789");
    assert_eq!(TrackNumber(7).to_text(), "7");
    assert_eq!(DiscNumber(0).to_text(), "0");
}
