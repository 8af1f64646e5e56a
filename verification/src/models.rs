//! The catalogue's data: purchases as the storefronts report them, and the
//! plan and results of one synchronisation run.
//!
//! Paths are `/`-separated strings. Each type that a contract speaks of has a
//! view made of sequences and integers.

use vstd::prelude::*;

verus! {

/// A storefront that purchases can be synchronised from.
#[derive(Debug, Clone, Copy, PartialEq, Eq, Hash, Structural)]
pub enum Service {
    Qobuz,
    Bandcamp,
}

impl Service {
    /// The name of the service as shown to the user.
    pub fn name(&self) -> (r: &'static str)
        ensures
            r@ == (match *self {
                Service::Qobuz => "Qobuz"@,
                Service::Bandcamp => "Bandcamp"@,
            }),
    {
        match self {
            Service::Qobuz => "Qobuz",
            Service::Bandcamp => "Bandcamp",
        }
    }
}

/// The message for a name that is not that of a service.
pub open spec fn unknown_service_message(name: Seq<char>) -> Seq<char> {
    "Unknown service '"@ + name + "'. Supported services: qobuz, bandcamp"@
}

/// Reads the name of a service, in any case.
pub fn parse_service(name: &str) -> (r: Result<Service, String>)
    ensures
        match r {
            Ok(Service::Qobuz) => crate::text::same_ignoring_case(name@, "qobuz"@),
            Ok(Service::Bandcamp) => crate::text::same_ignoring_case(name@, "bandcamp"@),
            Err(message) => !crate::text::same_ignoring_case(name@, "qobuz"@)
                && !crate::text::same_ignoring_case(name@, "bandcamp"@) && message@
                == unknown_service_message(name@),
        },
{
    let chars = crate::text::chars_of(name);
    if crate::text::eq_ignoring_case(&chars, &crate::text::chars_of("qobuz")) {
        Ok(Service::Qobuz)
    } else if crate::text::eq_ignoring_case(&chars, &crate::text::chars_of("bandcamp")) {
        Ok(Service::Bandcamp)
    } else {
        let mut msg = crate::text::chars_of("Unknown service '");
        crate::text::push_str(&mut msg, name);
        crate::text::push_str(&mut msg, "'. Supported services: qobuz, bandcamp");
        Err(crate::text::string_of(&msg))
    }
}

/// Whether a service is to be synchronised, given the one that the user
/// asked for, if any.
pub fn should_run(filter: Option<Service>, service: Service) -> (r: bool)
    ensures
        r == (filter is None || filter == Some(service)),
{
    match filter {
        None => true,
        Some(wanted) => wanted == service,
    }
}

/// The identity of a track: two purchases with the same id are the same
/// recording.
#[derive(Debug, Clone, Copy, PartialEq, Eq, Hash, Structural)]
pub struct TrackId(pub u64);

impl TrackId {
    /// The id in decimal.
    pub fn to_text(&self) -> (r: String)
        ensures
            r@ == crate::text::decimal(self.0 as nat),
    {
        let mut out: Vec<char> = Vec::new();
        crate::text::push_decimal(&mut out, self.0);
        crate::text::string_of(&out)
    }
}

#[derive(Debug, PartialEq, Eq, Hash)]
pub struct AlbumId(pub String);

impl AlbumId {
    /// The id as text.
    pub fn to_text(&self) -> (r: String)
        ensures
            r@ == self.0@,
    {
        self.0.clone()
    }
}

impl Clone for AlbumId {
    fn clone(&self) -> (r: Self)
        ensures
            r.0@ == self.0@,
    {
        AlbumId(self.0.clone())
    }
}

#[derive(Debug, Clone, Copy, PartialEq, Eq, Structural)]
pub struct TrackNumber(pub u8);

#[derive(Debug, Clone, Copy, PartialEq, Eq, Structural)]
pub struct DiscNumber(pub u8);

impl TrackNumber {
    /// The number in decimal.
    pub fn to_text(&self) -> (r: String)
        ensures
            r@ == crate::text::decimal(self.0 as nat),
    {
        let mut out: Vec<char> = Vec::new();
        crate::text::push_decimal(&mut out, self.0 as u64);
        crate::text::string_of(&out)
    }
}

impl DiscNumber {
    /// The number in decimal.
    pub fn to_text(&self) -> (r: String)
        ensures
            r@ == crate::text::decimal(self.0 as nat),
    {
        let mut out: Vec<char> = Vec::new();
        crate::text::push_decimal(&mut out, self.0 as u64);
        crate::text::string_of(&out)
    }
}

#[derive(Debug)]
pub struct Artist {
    pub id: u64,
    pub name: String,
}

pub struct ArtistView {
    pub id: u64,
    pub name: Seq<char>,
}

impl View for Artist {
    type V = ArtistView;

    open spec fn view(&self) -> ArtistView {
        ArtistView { id: self.id, name: self.name@ }
    }
}

impl Clone for Artist {
    fn clone(&self) -> (r: Self)
        ensures
            r@ == self@,
    {
        Artist { id: self.id, name: self.name.clone() }
    }
}

#[derive(Debug)]
pub struct Track {
    pub id: TrackId,
    pub title: String,
    pub track_number: TrackNumber,
    pub media_number: DiscNumber,
    pub duration: u32,
    pub performer: Artist,
    pub isrc: Option<String>,
}

pub struct TrackView {
    pub id: u64,
    pub title: Seq<char>,
    pub track_number: u8,
    pub media_number: u8,
    pub duration: u32,
    pub performer: ArtistView,
    pub isrc: Option<Seq<char>>,
}

/// The view of an optional string.
pub open spec fn opt_chars(s: Option<String>) -> Option<Seq<char>> {
    match s {
        Some(t) => Some(t@),
        None => None,
    }
}

/// Copies an optional string.
pub fn clone_opt(s: &Option<String>) -> (r: Option<String>)
    ensures
        opt_chars(r) == opt_chars(*s),
{
    match s {
        Some(t) => Some(t.clone()),
        None => None,
    }
}

impl View for Track {
    type V = TrackView;

    open spec fn view(&self) -> TrackView {
        TrackView {
            id: self.id.0,
            title: self.title@,
            track_number: self.track_number.0,
            media_number: self.media_number.0,
            duration: self.duration,
            performer: self.performer@,
            isrc: opt_chars(self.isrc),
        }
    }
}

impl Clone for Track {
    fn clone(&self) -> (r: Self)
        ensures
            r@ == self@,
    {
        Track {
            id: self.id,
            title: self.title.clone(),
            track_number: self.track_number,
            media_number: self.media_number,
            duration: self.duration,
            performer: self.performer.clone(),
            isrc: clone_opt(&self.isrc),
        }
    }
}

/// One page of a listing, with its place in the whole.
#[derive(Debug)]
pub struct PaginatedList<T> {
    pub offset: u64,
    pub limit: u64,
    pub total: u64,
    pub items: Vec<T>,
}

pub struct PageView<V> {
    pub offset: u64,
    pub limit: u64,
    pub total: u64,
    pub items: Seq<V>,
}

impl<T: View> View for PaginatedList<T> {
    type V = PageView<T::V>;

    open spec fn view(&self) -> PageView<T::V> {
        PageView {
            offset: self.offset,
            limit: self.limit,
            total: self.total,
            items: self.items@.map_values(|t: T| t@),
        }
    }
}

/// The views of a list of tracks, in order.
pub open spec fn track_views(tracks: Seq<Track>) -> Seq<TrackView> {
    tracks.map_values(|t: Track| t@)
}

/// Copies a list of tracks.
pub fn clone_tracks(tracks: &Vec<Track>) -> (r: Vec<Track>)
    ensures
        track_views(r@) == track_views(tracks@),
{
    let mut r: Vec<Track> = Vec::new();
    let mut i: usize = 0;
    while i < tracks.len()
        invariant
            i <= tracks.len(),
            r@.len() == i,
            forall|j: int| 0 <= j < i ==> (#[trigger] r@[j])@ == tracks@[j]@,
        decreases tracks.len() - i,
    {
        r.push(tracks[i].clone());
        i += 1;
    }
    assert(track_views(r@) =~= track_views(tracks@));
    r
}

#[derive(Debug)]
pub struct Album {
    pub id: AlbumId,
    pub title: String,
    pub version: Option<String>,
    pub artist: Artist,
    pub media_count: u8,
    pub tracks_count: u16,
    pub tracks: Option<PaginatedList<Track>>,
}

pub struct AlbumView {
    pub id: Seq<char>,
    pub title: Seq<char>,
    pub version: Option<Seq<char>>,
    pub artist: ArtistView,
    pub media_count: u8,
    pub tracks_count: u16,
    pub tracks: Option<PageView<TrackView>>,
}

impl View for Album {
    type V = AlbumView;

    open spec fn view(&self) -> AlbumView {
        AlbumView {
            id: self.id.0@,
            title: self.title@,
            version: opt_chars(self.version),
            artist: self.artist@,
            media_count: self.media_count,
            tracks_count: self.tracks_count,
            tracks: match self.tracks {
                Some(page) => Some(page@),
                None => None,
            },
        }
    }
}

impl Clone for Album {
    fn clone(&self) -> (r: Self)
        ensures
            r@ == self@,
    {
        let tracks = match &self.tracks {
            Some(page) => {
                let items = clone_tracks(&page.items);
                let copy = PaginatedList {
                    offset: page.offset,
                    limit: page.limit,
                    total: page.total,
                    items,
                };
                assert(copy@.items =~= page@.items);
                Some(copy)
            },
            None => None,
        };
        Album {
            id: self.id.clone(),
            title: self.title.clone(),
            version: clone_opt(&self.version),
            artist: self.artist.clone(),
            media_count: self.media_count,
            tracks_count: self.tracks_count,
            tracks,
        }
    }
}

/// One page of the purchases of an account.
#[derive(Debug)]
pub struct PurchaseResponse {
    pub albums: PaginatedList<Album>,
    pub tracks: PaginatedList<Track>,
}

#[derive(Debug)]
pub struct LoginResponse {
    pub user_auth_token: String,
    pub user: UserInfo,
}

#[derive(Debug)]
pub struct UserInfo {
    pub id: u64,
}

#[derive(Debug)]
pub struct FileUrlResponse {
    pub track_id: u64,
    pub url: String,
    pub format_id: u8,
    pub mime_type: String,
}

#[derive(Debug)]
pub struct AppCredentials {
    pub app_id: String,
    pub app_secret: String,
}

#[derive(Debug)]
pub struct UserAuth {
    pub token: String,
    pub user_id: u64,
}

#[derive(Debug)]
pub struct Session {
    pub credentials: AppCredentials,
    pub auth: UserAuth,
}

/// All purchases of an account, gathered over every page.
#[derive(Debug)]
pub struct PurchaseList {
    pub albums: Vec<Album>,
    pub tracks: Vec<Track>,
}

/// One track to fetch, with the album it is filed under and the path it is
/// written to.
#[derive(Debug)]
pub struct DownloadTask {
    pub track: Track,
    pub album: Album,
    pub target_path: String,
    pub file_extension: &'static str,
}

pub struct TaskView {
    pub track: TrackView,
    pub album: AlbumView,
    pub target_path: Seq<char>,
    pub file_extension: Seq<char>,
}

impl View for DownloadTask {
    type V = TaskView;

    open spec fn view(&self) -> TaskView {
        TaskView {
            track: self.track@,
            album: self.album@,
            target_path: self.target_path@,
            file_extension: self.file_extension@,
        }
    }
}

/// The views of a list of tasks, in order.
pub open spec fn task_views(tasks: Seq<DownloadTask>) -> Seq<TaskView> {
    tasks.map_values(|t: DownloadTask| t@)
}

#[derive(Debug, Clone, Copy, PartialEq, Eq, Structural)]
pub enum SkipReason {
    AlreadyExists,
    DryRun,
}

/// A track that the plan leaves alone, and why.
#[derive(Debug)]
pub struct SkippedTrack {
    pub track: Track,
    pub target_path: String,
    pub reason: SkipReason,
}

pub struct SkippedView {
    pub track: TrackView,
    pub target_path: Seq<char>,
    pub reason: SkipReason,
}

impl View for SkippedTrack {
    type V = SkippedView;

    open spec fn view(&self) -> SkippedView {
        SkippedView { track: self.track@, target_path: self.target_path@, reason: self.reason }
    }
}

/// The views of a list of skipped tracks, in order.
pub open spec fn skipped_views(skipped: Seq<SkippedTrack>) -> Seq<SkippedView> {
    skipped.map_values(|s: SkippedTrack| s@)
}

/// What one run will do: the tracks to fetch and the tracks left alone.
#[derive(Debug)]
pub struct SyncPlan {
    pub downloads: Vec<DownloadTask>,
    pub skipped: Vec<SkippedTrack>,
    pub total_tracks: usize,
}

pub struct PlanView {
    pub downloads: Seq<TaskView>,
    pub skipped: Seq<SkippedView>,
    pub total_tracks: nat,
}

impl View for SyncPlan {
    type V = PlanView;

    open spec fn view(&self) -> PlanView {
        PlanView {
            downloads: task_views(self.downloads@),
            skipped: skipped_views(self.skipped@),
            total_tracks: self.total_tracks as nat,
        }
    }
}

/// A task that could not be completed, with the last error met.
#[derive(Debug)]
pub struct DownloadError {
    pub task: DownloadTask,
    pub error: String,
}

/// What one run did.
#[derive(Debug)]
pub struct SyncResult {
    pub succeeded: Vec<DownloadTask>,
    pub failed: Vec<DownloadError>,
    pub skipped: Vec<SkippedTrack>,
    pub fallback_count: usize,
}

/// One page of a fan's collection.
#[derive(Debug)]
pub struct BandcampCollectionResponse {
    pub more_available: bool,
    pub last_token: String,
    /// Download page addresses by sale key, each key at most once.
    pub redownload_urls: Vec<(String, String)>,
    pub items: Vec<BandcampCollectionItem>,
}

#[derive(Debug)]
pub struct BandcampCollectionItem {
    pub band_name: String,
    pub item_title: String,
    pub item_id: u64,
    pub item_type: String,
    pub sale_item_type: String,
    pub sale_item_id: u64,
    pub token: String,
}

/// What a download page offers for one purchase.
#[derive(Debug)]
pub struct BandcampDownloadInfo {
    pub item_id: u64,
    pub title: String,
    pub artist: String,
    pub download_type: String,
    /// The offered encodings by name, each name at most once.
    pub downloads: Vec<(String, BandcampDownloadFormat)>,
}

#[derive(Debug)]
pub struct BandcampDownloadFormat {
    pub url: String,
    pub size_mb: String,
}

#[derive(Debug)]
pub struct BandcampSyncResult {
    pub downloaded: usize,
    pub skipped: usize,
    pub would_download: usize,
    pub failed: Vec<BandcampDownloadError>,
}

#[derive(Debug)]
pub struct BandcampDownloadError {
    pub description: String,
    pub error: String,
}

} // verus!
