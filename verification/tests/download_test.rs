use qoget::bandcamp::{BandcampPurchases, ExtractedTrack};
use qoget::download::{
    actual_extension, actual_target, album_dir, begin_item, cleanup_paths, collect_results,
    count_skipped, decide_item, failure_line, has_m4a_files, item_description, next_step,
    placements, redownload_key, status_failure, summary_line, temp_path, DownloadOutcome,
    FetchEvent, FetchStep, ItemAction, ItemOutcome, ItemStep, TaskResult, CONCURRENT_DOWNLOADS,
    FORMAT_ID_CD_QUALITY, FORMAT_ID_MP3_320,
};
use qoget::models::{
    Album, AlbumId, Artist, BandcampCollectionItem, BandcampDownloadError, BandcampSyncResult,
    DiscNumber, DownloadError, DownloadTask, SkipReason, SkippedTrack, SyncResult, Track, TrackId,
    TrackNumber,
};

fn track(id: u64, title: &str) -> Track {
    Track {
        id: TrackId(id),
        title: title.to_string(),
        track_number: TrackNumber(1),
        media_number: DiscNumber(1),
        duration: 0,
        performer: Artist { id: 1, name: "Band".to_string() },
        isrc: None,
    }
}

fn album(title: &str) -> Album {
    Album {
        id: AlbumId("a".to_string()),
        title: title.to_string(),
        version: None,
        artist: Artist { id: 1, name: "Band".to_string() },
        media_count: 1,
        tracks_count: 2,
        tracks: None,
    }
}

fn task(id: u64, path: &str, ext: &'static str) -> DownloadTask {
    DownloadTask { track: track(id, "Song"), album: album("Album"), target_path: path.to_string(), file_extension: ext }
}

#[test]
fn constants_of_the_executor() {
    assert_eq!(CONCURRENT_DOWNLOADS, 4);
    assert_eq!(FORMAT_ID_MP3_320, 5);
    assert_eq!(FORMAT_ID_CD_QUALITY, 6);
}

fn step(task: &DownloadTask, event: FetchEvent) -> String {
    format!("{:?}", next_step(task, event))
}

#[test]
fn fallback_is_asked_for_when_the_first_encoding_is_missing() {
    let t = task(1, "/m/Band/Album/01 - Song.mp3", ".mp3");
    assert_eq!(step(&t, FetchEvent::Start), "RequestUrl { format_id: 5 }");
    assert_eq!(
        step(&t, FetchEvent::Address { format_id: 5, answer: Ok("https://cdn/file".to_string()) }),
        "Store { url: \"https://cdn/file\", temp_path: \"/m/Band/Album/01 - Song.mp3.tmp\", \
         target: \"/m/Band/Album/01 - Song.mp3\", outcome: Mp3 }"
    );
    assert_eq!(
        step(&t, FetchEvent::Address { format_id: 5, answer: Err("HTTP 404".to_string()) }),
        "RequestUrl { format_id: 6 }"
    );
    assert_eq!(
        step(&t, FetchEvent::Address { format_id: 6, answer: Ok("https://cdn/flac".to_string()) }),
        "Store { url: \"https://cdn/flac\", temp_path: \"/m/Band/Album/01 - Song.flac.tmp\", \
         target: \"/m/Band/Album/01 - Song.flac\", outcome: FlacFallback }"
    );
    assert_eq!(
        step(&t, FetchEvent::Address { format_id: 6, answer: Err("HTTP 404".to_string()) }),
        "GiveUp { remove: [\"/m/Band/Album/01 - Song.mp3.tmp\", \"/m/Band/Album/01 - Song.flac.tmp\"], \
         error: \"unavailable in both MP3 320 and CD Quality: HTTP 404\" }"
    );
}

#[test]
fn failure_removes_the_temporary_files_and_success_completes() {
    let t = task(1, "/m/x.mp3", ".mp3");
    assert_eq!(
        step(&t, FetchEvent::Broken { error: "disk full".to_string() }),
        "GiveUp { remove: [\"/m/x.mp3.tmp\", \"/m/x.flac.tmp\"], error: \"disk full\" }"
    );
    assert_eq!(step(&t, FetchEvent::Stored { outcome: DownloadOutcome::Mp3 }), "Done { outcome: Mp3 }");
    assert_eq!(
        step(&t, FetchEvent::Stored { outcome: DownloadOutcome::FlacFallback }),
        "Done { outcome: FlacFallback }"
    );
}

#[test]
fn download_that_succeeds_at_once_takes_three_steps() {
    let t = task(1, "/m/x.mp3", ".mp3");
    let mut event = FetchEvent::Start;
    let mut steps = Vec::new();
    let outcome = loop {
        event = match next_step(&t, event) {
            FetchStep::RequestUrl { format_id } => {
                steps.push(format!("ask {format_id}"));
                FetchEvent::Address { format_id, answer: Ok(format!("https://cdn/{format_id}")) }
            }
            FetchStep::Store { url, temp_path, target, outcome } => {
                steps.push(format!("store {url} {temp_path} {target}"));
                FetchEvent::Stored { outcome }
            }
            FetchStep::GiveUp { error, .. } => panic!("gave up: {error}"),
            FetchStep::Done { outcome } => break outcome,
        };
    };
    assert_eq!(outcome, DownloadOutcome::Mp3);
    assert_eq!(steps, vec!["ask 5".to_string(), "store https://cdn/5 /m/x.mp3.tmp /m/x.mp3".to_string()]);
}

#[test]
fn paths_follow_the_encoding_that_was_fetched() {
    let t = task(1, "/music/Band/Album/01 - Song.mp3", ".mp3");
    assert_eq!(actual_target(&t, DownloadOutcome::Mp3), "/music/Band/Album/01 - Song.mp3");
    assert_eq!(actual_target(&t, DownloadOutcome::FlacFallback), "/music/Band/Album/01 - Song.flac");
    assert_eq!(actual_extension(&t, DownloadOutcome::Mp3), ".mp3");
    assert_eq!(actual_extension(&t, DownloadOutcome::FlacFallback), ".flac");
    assert_eq!(temp_path(&t, DownloadOutcome::Mp3), "/music/Band/Album/01 - Song.mp3.tmp");
    assert_eq!(temp_path(&t, DownloadOutcome::FlacFallback), "/music/Band/Album/01 - Song.flac.tmp");
    assert_eq!(
        cleanup_paths(&t),
        vec![
            "/music/Band/Album/01 - Song.mp3.tmp".to_string(),
            "/music/Band/Album/01 - Song.flac.tmp".to_string()
        ]
    );
}

#[test]
fn temp_file_lies_beside_the_target() {
    let t = task(1, "/a.b/c.d/01 - Mr. Song.mp3", ".mp3");
    assert_eq!(temp_path(&t, DownloadOutcome::Mp3), "/a.b/c.d/01 - Mr. Song.mp3.tmp");
    assert_eq!(actual_target(&t, DownloadOutcome::FlacFallback), "/a.b/c.d/01 - Mr. Song.flac");
    let bare = task(1, "/a.b/noext", ".mp3");
    assert_eq!(actual_target(&bare, DownloadOutcome::FlacFallback), "/a.b/noext.flac");
    assert_eq!(temp_path(&bare, DownloadOutcome::Mp3), "/a.b/noext.mp3.tmp");
    let hidden = task(1, "/a/.hidden", ".mp3");
    assert_eq!(actual_target(&hidden, DownloadOutcome::FlacFallback), "/a/.hidden.flac");
}

#[test]
fn status_failure_names_the_status() {
    assert_eq!(status_failure("404 Not Found"), "Download returned HTTP 404 Not Found");
}

fn skipped(id: u64, reason: SkipReason) -> SkippedTrack {
    SkippedTrack { track: track(id, "S"), target_path: format!("/m/{id}.mp3"), reason }
}

#[test]
fn results_are_split_and_counted() {
    let results = vec![
        TaskResult::Done { task: task(1, "/m/1.mp3", ".mp3"), outcome: DownloadOutcome::Mp3 },
        TaskResult::Failed { failure: DownloadError { task: task(2, "/m/2.mp3", ".mp3"), error: "disk full".to_string() } },
        TaskResult::Done { task: task(3, "/m/3.mp3", ".mp3"), outcome: DownloadOutcome::FlacFallback },
        TaskResult::Done { task: task(4, "/m/4.mp3", ".mp3"), outcome: DownloadOutcome::FlacFallback },
        TaskResult::Failed { failure: DownloadError { task: task(5, "/m/5.mp3", ".mp3"), error: "HTTP 500".to_string() } },
    ];
    let result = collect_results(results, vec![skipped(9, SkipReason::AlreadyExists)]);
    let done: Vec<u64> = result.succeeded.iter().map(|t| t.track.id.0).collect();
    assert_eq!(done, vec![1, 3, 4]);
    let failed: Vec<(u64, &str)> = result.failed.iter().map(|f| (f.task.track.id.0, f.error.as_str())).collect();
    assert_eq!(failed, vec![(2, "disk full"), (5, "HTTP 500")]);
    assert_eq!(result.fallback_count, 2);
    assert_eq!(result.skipped.len(), 1);
    assert_eq!(result.skipped[0].track.id.0, 9);

    assert_eq!(summary_line("Qobuz", &result), "Qobuz: 3 succeeded (2 as FLAC), 2 failed, 1 skipped");
    assert_eq!(failure_line(&result.failed[0]), "  Album - Song: disk full");

    let empty = collect_results(Vec::new(), Vec::new());
    assert!(empty.succeeded.is_empty() && empty.failed.is_empty() && empty.skipped.is_empty());
    assert_eq!(empty.fallback_count, 0);
    assert_eq!(summary_line("Qobuz", &empty), "Qobuz: 0 succeeded, 0 failed, 0 skipped");
}

#[test]
fn skipped_tracks_are_counted_by_reason() {
    let list = vec![
        skipped(1, SkipReason::DryRun),
        skipped(2, SkipReason::AlreadyExists),
        skipped(3, SkipReason::DryRun),
    ];
    assert_eq!(count_skipped(&list, SkipReason::DryRun), 2);
    assert_eq!(count_skipped(&list, SkipReason::AlreadyExists), 1);
    assert_eq!(count_skipped(&Vec::new(), SkipReason::DryRun), 0);
    let result = SyncResult { succeeded: vec![], failed: vec![], skipped: list, fallback_count: 0 };
    assert_eq!(summary_line("Qobuz", &result), "Qobuz: 0 succeeded, 0 failed, 3 skipped");
}

fn item(band: &str, title: &str, item_id: u64, sale_type: &str, sale_id: u64) -> BandcampCollectionItem {
    BandcampCollectionItem {
        band_name: band.to_string(),
        item_title: title.to_string(),
        item_id,
        item_type: "album".to_string(),
        sale_item_type: sale_type.to_string(),
        sale_item_id: sale_id,
        token: "tok".to_string(),
    }
}

#[test]
fn item_is_prepared_from_its_listing() {
    let it = item("AC/DC", "Back: in Black", 100, "a", 555);
    assert_eq!(item_description(&it), "AC/DC - Back: in Black");
    assert_eq!(redownload_key(&it), "a555");
    let purchases = BandcampPurchases {
        items: vec![],
        redownload_urls: vec![
            ("t555".to_string(), "https://other".to_string()),
            ("a555".to_string(), "https://page".to_string()),
        ],
    };
    match begin_item(&purchases, &it, "/music") {
        ItemStep::Check { url, album, album_dir } => {
            assert_eq!(url, "https://page");
            assert_eq!(album.id.0, "bc-100");
            assert_eq!(album.artist.id, 555);
            assert_eq!(album_dir, "/music/AC-DC/Back- in Black");
        }
        other => panic!("unexpected step: {other:?}"),
    }
    let missing = item("Band", "Gone", 7, "a", 8);
    match begin_item(&purchases, &missing, "/music") {
        ItemStep::Fail { failure } => {
            assert_eq!(failure.description, "Band - Gone");
            assert_eq!(failure.error, "No redownload URL found (key: a8)");
        }
        other => panic!("unexpected step: {other:?}"),
    }
    assert_eq!(album_dir("/m", &album("T")), "/m/Band/T");
}

#[test]
fn item_action_depends_on_what_is_stored() {
    assert_eq!(decide_item(true, false), ItemAction::Skip);
    assert_eq!(decide_item(true, true), ItemAction::Skip);
    assert_eq!(decide_item(false, true), ItemAction::Report);
    assert_eq!(decide_item(false, false), ItemAction::Download);
}

#[test]
fn stored_album_is_known_by_its_m4a_files() {
    let paths = |v: &[&str]| v.iter().map(|s| s.to_string()).collect::<Vec<String>>();
    assert!(has_m4a_files(&paths(&["/m/a/cover.jpg", "/m/a/01 - x.m4a"])));
    assert!(!has_m4a_files(&paths(&["/m/a/cover.jpg", "/m/a/01 - x.M4A", "/m/a/m4a", "/m/a/.m4a"])));
    assert!(!has_m4a_files(&paths(&["/m/a.m4a/readme", "/m/a/x.m4a.tmp"])));
    assert!(!has_m4a_files(&paths(&[])));
}

fn extracted(number: u8, title: &str, temp: &str) -> ExtractedTrack {
    ExtractedTrack { track_number: number, title: title.to_string(), temp_path: temp.to_string() }
}

#[test]
fn unpacked_files_are_placed_under_the_album() {
    let it = item("Band", "Record", 42, "a", 42);
    let al = qoget::bandcamp::album_for_item(&it);
    let many = vec![extracted(1, "One", "/t/0.m4a"), extracted(2, "Two: B", "/t/1.m4a")];
    let moves = placements(&it, &al, "/music", &many);
    let pairs: Vec<(&str, &str)> = moves.iter().map(|p| (p.from.as_str(), p.to.as_str())).collect();
    assert_eq!(
        pairs,
        vec![
            ("/t/0.m4a", "/music/Band/Record/01 - One.m4a"),
            ("/t/1.m4a", "/music/Band/Record/02 - Two- B.m4a"),
        ]
    );
    // a single file is stored under the title of the item, as track 1
    let one = vec![extracted(9, "Ignored", "/t/s.m4a")];
    let moves = placements(&it, &al, "/music", &one);
    assert_eq!(moves.len(), 1);
    assert_eq!(moves[0].from, "/t/s.m4a");
    assert_eq!(moves[0].to, "/music/Band/Record/01 - Record.m4a");
    assert!(placements(&it, &al, "/music", &Vec::new()).is_empty());
}

#[test]
fn outcomes_of_items_are_tallied() {
    let mut result = BandcampSyncResult::new();
    result.record(ItemOutcome::Skipped);
    result.record(ItemOutcome::Downloaded { tracks: 12 });
    result.record(ItemOutcome::Reported);
    result.record(ItemOutcome::Downloaded { tracks: 1 });
    result.record(ItemOutcome::Failed {
        failure: BandcampDownloadError { description: "Band - X".to_string(), error: "boom".to_string() },
    });
    result.record(ItemOutcome::Skipped);
    assert_eq!(result.downloaded, 13);
    assert_eq!(result.skipped, 2);
    assert_eq!(result.would_download, 1);
    assert_eq!(result.failed.len(), 1);
    assert_eq!(result.failed[0].error, "boom");
}
