//! Purchases from a storefront that delivers albums as archives: reading
//! entry names, turning the collection into purchases, and choosing the
//! encoding to download.

use vstd::prelude::*;
use crate::models::{
    opt_chars, track_views, Album, AlbumId, AlbumView, Artist, ArtistView,
    BandcampCollectionItem, BandcampCollectionResponse, BandcampDownloadInfo, DiscNumber,
    PurchaseList, Track, TrackId, TrackNumber, TrackView,
};
use crate::sync::album_views;
use crate::text::{
    chars_of, count_digits, decimal, digits_value, drop_suffixes, find_first, first_index_of,
    leading_digits, push_decimal, push_str, replace_all, replaced, skip_prefixes,
    skip_whitespace, slice_of, str_eq, string_of, strip_prefixes, strip_suffixes, trim_start,
};
use crate::path::{file_name_start, last_index_of};
use crate::pattern::{first_match, group, group_of, regex_first};

verus! {

/// Everything a fan has bought: the items, and for each sale key the
/// address of its download page, each key at most once.
pub struct BandcampPurchases {
    pub items: Vec<BandcampCollectionItem>,
    pub redownload_urls: Vec<(String, String)>,
}

/// One track taken out of a download.
#[derive(Debug)]
pub struct ExtractedTrack {
    pub track_number: u8,
    pub title: String,
    pub temp_path: String,
}

/// The four bytes that open a ZIP local file header.
pub open spec fn zip_magic() -> Seq<u8> {
    seq![0x50u8, 0x4Bu8, 0x03u8, 0x04u8]
}

/// Whether `bytes` starts with the ZIP local file header signature.
pub fn is_zip_magic(bytes: &[u8]) -> (r: bool)
    ensures
        r == (bytes@.len() >= 4 && bytes@.subrange(0, 4) == zip_magic()),
{
    if bytes.len() < 4 {
        return false;
    }
    let r = bytes[0] == 0x50 && bytes[1] == 0x4B && bytes[2] == 0x03 && bytes[3] == 0x04;
    proof {
        let head = bytes@.subrange(0, 4);
        if r {
            assert(head =~= zip_magic());
        } else {
            assert(head[0] == bytes@[0] && head[1] == bytes@[1] && head[2] == bytes@[2] && head[3]
                == bytes@[3]);
            assert(zip_magic()[0] == 0x50u8 && zip_magic()[1] == 0x4Bu8 && zip_magic()[2] == 0x03u8
                && zip_magic()[3] == 0x04u8);
        }
    }
    r
}

/// An entry name without its audio suffix, in either case.
pub open spec fn entry_stem(name: Seq<char>) -> Seq<char> {
    strip_suffixes(strip_suffixes(name, ".m4a"@), ".M4A"@)
}

/// The track number that a stem opens with: its leading digits read in
/// decimal, or 0 where it has none or they write a number above 255.
pub open spec fn entry_number(stem: Seq<char>) -> u8 {
    let value = digits_value(stem.take(leading_digits(stem) as int));
    if value <= 255 {
        value as u8
    } else {
        0
    }
}

/// The title in a stem: what follows the leading digits, without the
/// separator between the two. A stem without leading digits is the title.
pub open spec fn entry_title(stem: Seq<char>) -> Seq<char> {
    if leading_digits(stem) == 0 {
        stem
    } else {
        trim_start(
            strip_prefixes(
                strip_prefixes(stem.skip(leading_digits(stem) as int), " - "@),
                ". "@,
            ),
        )
    }
}

fn read_number(s: &Vec<char>, from: usize, n: usize) -> (r: u8)
    requires
        from + n <= s.len(),
        forall|i: int| from <= i < from + n ==> crate::text::is_digit(#[trigger] s@[i]),
    ensures
        r == (if digits_value(s@.subrange(from as int, from + n)) <= 255 {
            digits_value(s@.subrange(from as int, from + n)) as u8
        } else {
            0u8
        }),
{
    let mut value: u32 = 0;
    let mut over = false;
    let mut i: usize = 0;
    while i < n
        invariant
            i <= n,
            from + n <= s.len(),
            forall|j: int| from <= j < from + n ==> crate::text::is_digit(#[trigger] s@[j]),
            over == (digits_value(s@.subrange(from as int, from + i)) > 255),
            !over ==> value == digits_value(s@.subrange(from as int, from + i)),
            value <= 255,
        decreases n - i,
    {
        let c = s[from + i];
        assert(crate::text::is_digit(s@[from + i]));
        let d: u32 = c as u32 - '0' as u32;
        assert(s@.subrange(from as int, from + i + 1).drop_last() =~= s@.subrange(
            from as int,
            from + i,
        ));
        if !over {
            let next = value * 10 + d;
            if next > 255 {
                over = true;
            } else {
                value = next;
            }
        }
        i += 1;
    }
    if over {
        0
    } else {
        value as u8
    }
}

/// Reads the track number and the title out of the name of an archive
/// entry such as `01 Title.m4a`, `01 - Title.m4a` or `01. Title.m4a`.
pub fn parse_zip_track_filename(filename: &str) -> (r: (u8, String))
    ensures
        r.0 == entry_number(entry_stem(filename@)),
        r.1@ == entry_title(entry_stem(filename@)),
{
    let name = chars_of(filename);
    let lower = drop_suffixes(&name, &chars_of(".m4a"), 0, name.len());
    let end = drop_suffixes(&name, &chars_of(".M4A"), 0, lower);
    let ghost stem = entry_stem(filename@);
    proof {
        assert(name@.subrange(0, name@.len() as int) =~= name@);
        assert(name@.subrange(0, end as int) == stem);
    }
    let n = count_digits(&name, 0, end);
    if n == 0 {
        return (0, string_of(&slice_of(&name, 0, end)));
    }
    let number = read_number(&name, 0, n);
    proof {
        assert(stem.take(n as int) =~= name@.subrange(0, 0 + n));
        assert(stem.skip(n as int) =~= name@.subrange(n as int, end as int));
    }
    let a = skip_prefixes(&name, &chars_of(" - "), n, end);
    let b = skip_prefixes(&name, &chars_of(". "), a, end);
    let c = skip_whitespace(&name, b, end);
    (number, string_of(&slice_of(&name, c, end)))
}

/// The part of an address before its query string.
pub open spec fn before_query(url: Seq<char>) -> Seq<char> {
    url.take(first_index_of(url, '?'))
}

/// The title that an address suggests: its last path segment, without
/// query string and without audio suffix.
pub open spec fn title_in_url(url: Seq<char>) -> Seq<char> {
    let path = before_query(url);
    strip_suffixes(path.skip(file_name_start(path)), ".m4a"@)
}

fn rfind(s: &Vec<char>, to: usize, c: char) -> (start: usize)
    requires
        to <= s.len(),
    ensures
        start <= to,
        start == last_index_of(s@.take(to as int), c) + 1,
{
    let ghost head = s@.take(to as int);
    let mut i: usize = to;
    assert(head.take(to as int) =~= head);
    while i > 0
        invariant
            i <= to <= s.len(),
            head == s@.take(to as int),
            last_index_of(head, c) == last_index_of(head.take(i as int), c),
        decreases i,
    {
        assert(head.take(i as int).last() == s@[i - 1]);
        if s[i - 1] == c {
            return i;
        }
        assert(head.take(i as int).drop_last() =~= head.take(i - 1));
        i -= 1;
    }
    assert(head.take(0).len() == 0);
    0
}

/// Derives a title for a download that is one bare track from the address
/// it came from.
pub fn extract_title_from_url(url: &str) -> (r: String)
    ensures
        r@ == title_in_url(url@),
{
    let chars = chars_of(url);
    let query = find_first(&chars, '?');
    let start = rfind(&chars, query, '/');
    let end = drop_suffixes(&chars, &chars_of(".m4a"), start, query);
    proof {
        let path = before_query(url@);
        assert(path.skip(start as int) =~= chars@.subrange(start as int, query as int));
    }
    string_of(&slice_of(&chars, start, end))
}

/// `s` with the character references `&amp;`, `&lt;`, `&gt;`, `&quot;`,
/// `&#39;` and `&#x27;` resolved, one kind after the other in this order.
pub open spec fn entities_decoded(s: Seq<char>) -> Seq<char> {
    replaced(
        replaced(
            replaced(
                replaced(replaced(replaced(s, "&amp;"@, "&"@), "&lt;"@, "<"@), "&gt;"@, ">"@),
                "&quot;"@,
                "\""@,
            ),
            "&#39;"@,
            "'"@,
        ),
        "&#x27;"@,
        "'"@,
    )
}

/// Resolves the character references that stand in an attribute value.
pub fn decode_html_entities(s: &str) -> (r: String)
    ensures
        r@ == entities_decoded(s@),
{
    let a = replace_all(&chars_of(s), &chars_of("&amp;"), &chars_of("&"));
    let b = replace_all(&a, &chars_of("&lt;"), &chars_of("<"));
    let c = replace_all(&b, &chars_of("&gt;"), &chars_of(">"));
    let d = replace_all(&c, &chars_of("&quot;"), &chars_of("\""));
    let e = replace_all(&d, &chars_of("&#39;"), &chars_of("'"));
    let f = replace_all(&e, &chars_of("&#x27;"), &chars_of("'"));
    string_of(&f)
}

pub struct ItemView {
    pub band_name: Seq<char>,
    pub item_title: Seq<char>,
    pub item_id: u64,
    pub item_type: Seq<char>,
    pub sale_item_type: Seq<char>,
    pub sale_item_id: u64,
    pub token: Seq<char>,
}

impl View for BandcampCollectionItem {
    type V = ItemView;

    open spec fn view(&self) -> ItemView {
        ItemView {
            band_name: self.band_name@,
            item_title: self.item_title@,
            item_id: self.item_id,
            item_type: self.item_type@,
            sale_item_type: self.sale_item_type@,
            sale_item_id: self.sale_item_id,
            token: self.token@,
        }
    }
}

/// The views of a list of collection items, in order.
pub open spec fn item_views(items: Seq<BandcampCollectionItem>) -> Seq<ItemView> {
    items.map_values(|i: BandcampCollectionItem| i@)
}

/// Whether an item was sold as an album.
pub open spec fn is_album_sale(item: ItemView) -> bool {
    item.sale_item_type == "a"@
}

/// Whether an item was sold as a single track.
pub open spec fn is_track_sale(item: ItemView) -> bool {
    item.sale_item_type == "t"@
}

/// The artist of an item: the band, under the number of the sale.
pub open spec fn item_artist(item: ItemView) -> ArtistView {
    ArtistView { id: item.sale_item_id, name: item.band_name }
}

/// The album that an item stands for. Its tracks are not known before the
/// archive has been unpacked, so none is listed and their count is 0.
pub open spec fn item_album(item: ItemView) -> AlbumView {
    AlbumView {
        id: "bc-"@ + decimal(item.item_id as nat),
        title: item.item_title,
        version: None,
        artist: item_artist(item),
        media_count: 1,
        tracks_count: 0,
        tracks: None,
    }
}

/// The track that an item sold as a single track stands for.
pub open spec fn item_track(item: ItemView) -> TrackView {
    TrackView {
        id: item.item_id,
        title: item.item_title,
        track_number: 1,
        media_number: 1,
        duration: 0,
        performer: item_artist(item),
        isrc: None,
    }
}

/// The albums among `items`, in order.
pub open spec fn albums_of(items: Seq<ItemView>) -> Seq<AlbumView>
    decreases items.len(),
{
    if items.len() == 0 {
        Seq::empty()
    } else if is_album_sale(items.last()) {
        albums_of(items.drop_last()).push(item_album(items.last()))
    } else {
        albums_of(items.drop_last())
    }
}

/// The single tracks among `items`, in order.
pub open spec fn tracks_of(items: Seq<ItemView>) -> Seq<TrackView>
    decreases items.len(),
{
    if items.len() == 0 {
        Seq::empty()
    } else if is_track_sale(items.last()) {
        tracks_of(items.drop_last()).push(item_track(items.last()))
    } else {
        tracks_of(items.drop_last())
    }
}

fn artist_of(item: &BandcampCollectionItem) -> (r: Artist)
    ensures
        r@ == item_artist(item@),
{
    Artist { id: item.sale_item_id, name: item.band_name.clone() }
}

/// Builds the album that a collection item stands for.
pub fn album_for_item(item: &BandcampCollectionItem) -> (r: Album)
    ensures
        r@ == item_album(item@),
{
    let mut id: Vec<char> = Vec::new();
    push_str(&mut id, "bc-");
    push_decimal(&mut id, item.item_id);
    assert(id@ =~= "bc-"@ + decimal(item.item_id as nat));
    Album {
        id: AlbumId(string_of(&id)),
        title: item.item_title.clone(),
        version: None,
        artist: artist_of(item),
        media_count: 1,
        tracks_count: 0,
        tracks: None,
    }
}

/// Builds the track that a collection item sold as a single track stands
/// for.
pub fn track_for_item(item: &BandcampCollectionItem) -> (r: Track)
    ensures
        r@ == item_track(item@),
{
    Track {
        id: TrackId(item.item_id),
        title: item.item_title.clone(),
        track_number: TrackNumber(1),
        media_number: DiscNumber(1),
        duration: 0,
        performer: artist_of(item),
        isrc: None,
    }
}

/// Turns a collection into purchases: each item sold as an album becomes
/// an album, each sold as a track a track, and any other is left out.
pub fn to_purchase_list(purchases: &BandcampPurchases) -> (list: PurchaseList)
    ensures
        album_views(list.albums@) == albums_of(item_views(purchases.items@)),
        track_views(list.tracks@) == tracks_of(item_views(purchases.items@)),
{
    let ghost all = item_views(purchases.items@);
    let mut albums: Vec<Album> = Vec::new();
    let mut tracks: Vec<Track> = Vec::new();
    let mut i: usize = 0;
    while i < purchases.items.len()
        invariant
            i <= purchases.items.len(),
            all == item_views(purchases.items@),
            album_views(albums@) == albums_of(all.take(i as int)),
            track_views(tracks@) == tracks_of(all.take(i as int)),
        decreases purchases.items.len() - i,
    {
        let item = &purchases.items[i];
        proof {
            assert(all.take(i + 1).drop_last() =~= all.take(i as int));
            assert(all.take(i + 1).last() == item@);
        }
        if str_eq(item.sale_item_type.as_str(), "a") {
            let ghost before = albums@;
            let album = album_for_item(item);
            albums.push(album);
            assert(album_views(albums@) =~= album_views(before).push(album@));
        } else if str_eq(item.sale_item_type.as_str(), "t") {
            let ghost before = tracks@;
            let track = track_for_item(item);
            tracks.push(track);
            assert(track_views(tracks@) =~= track_views(before).push(track@));
        }
        proof {
            if is_album_sale(item@) && is_track_sale(item@) {
                reveal_strlit("a");
                reveal_strlit("t");
                assert("a"@[0] == 'a');
                assert("t"@[0] == 't');
            }
        }
        i += 1;
    }
    assert(all.take(purchases.items.len() as int) =~= all);
    PurchaseList { albums, tracks }
}

/// The name of the encoding that is downloaded.
pub open spec fn wanted_format() -> Seq<char> {
    "aac-hi"@
}

/// The position of the first entry of `downloads` under the name `name`,
/// if there is one.
pub open spec fn format_index(downloads: Seq<(String, crate::models::BandcampDownloadFormat)>, name: Seq<char>) -> Option<int>
    decreases downloads.len(),
{
    if downloads.len() == 0 {
        None
    } else if downloads[0].0@ == name {
        Some(0)
    } else {
        match format_index(downloads.drop_first(), name) {
            Some(i) => Some(i + 1),
            None => None,
        }
    }
}

/// The names of the first `n` offered encodings, separated by `", "`.
pub open spec fn format_names(downloads: Seq<(String, crate::models::BandcampDownloadFormat)>, n: int) -> Seq<char>
    decreases n,
{
    if n <= 0 {
        Seq::empty()
    } else if n == 1 {
        downloads[0].0@
    } else {
        format_names(downloads, n - 1) + ", "@ + downloads[n - 1].0@
    }
}

/// The message for a purchase that is not offered in the wanted encoding.
pub open spec fn missing_format_message(info: BandcampDownloadInfo) -> Seq<char> {
    "No aac-hi format available for \""@ + info.title@ + "\" by "@ + info.artist@
        + ". Available formats: "@ + format_names(info.downloads@, info.downloads@.len() as int)
}

/// Picks the address of the download in the wanted encoding, or says which
/// encodings are offered instead.
pub fn aac_hi_url(info: &BandcampDownloadInfo) -> (r: Result<&str, String>)
    ensures
        match format_index(info.downloads@, wanted_format()) {
            Some(i) => r is Ok && r->Ok_0@ == info.downloads@[i].1.url@,
            None => r is Err && r->Err_0@ == missing_format_message(*info),
        },
{
    let mut i: usize = 0;
    assert(info.downloads@.skip(0) =~= info.downloads@);
    while i < info.downloads.len()
        invariant
            i <= info.downloads.len(),
            format_index(info.downloads@.skip(i as int), wanted_format()) is None ==> format_index(
                info.downloads@,
                wanted_format(),
            ) is None,
            format_index(info.downloads@.skip(i as int), wanted_format()) is Some ==> format_index(
                info.downloads@,
                wanted_format(),
            ) == Some(
                i + format_index(info.downloads@.skip(i as int), wanted_format())->0,
            ),
        decreases info.downloads.len() - i,
    {
        assert(info.downloads@.skip(i as int).drop_first() =~= info.downloads@.skip(i + 1));
        if str_eq(info.downloads[i].0.as_str(), "aac-hi") {
            return Ok(info.downloads[i].1.url.as_str());
        }
        i += 1;
    }
    let mut msg: Vec<char> = Vec::new();
    push_str(&mut msg, "No aac-hi format available for \"");
    push_str(&mut msg, info.title.as_str());
    push_str(&mut msg, "\" by ");
    push_str(&mut msg, info.artist.as_str());
    push_str(&mut msg, ". Available formats: ");
    let ghost head = msg@;
    let mut k: usize = 0;
    while k < info.downloads.len()
        invariant
            k <= info.downloads.len(),
            msg@ == head + format_names(info.downloads@, k as int),
        decreases info.downloads.len() - k,
    {
        let ghost before = msg@;
        if k > 0 {
            push_str(&mut msg, ", ");
        }
        push_str(&mut msg, info.downloads[k].0.as_str());
        assert(msg@ =~= head + format_names(info.downloads@, k + 1));
        k += 1;
    }
    Err(string_of(&msg))
}

/// What the answer to the request for a fan's summary says of the
/// identity that was sent with it.
#[derive(Debug, Clone, Copy, PartialEq, Eq, Structural)]
pub enum AuthStatus {
    Accepted,
    /// The identity is not valid, or no longer.
    Rejected,
    /// The service answered with some other failure.
    Unexpected,
}

/// Reads the status of the answer to the request for a fan's summary.
pub fn auth_status(status: u16) -> (r: AuthStatus)
    ensures
        r == (if status == 401 || status == 403 {
            AuthStatus::Rejected
        } else if !(200 <= status < 300) {
            AuthStatus::Unexpected
        } else {
            AuthStatus::Accepted
        }),
{
    if status == 401 || status == 403 {
        AuthStatus::Rejected
    } else if !(200 <= status && status < 300) {
        AuthStatus::Unexpected
    } else {
        AuthStatus::Accepted
    }
}

/// The token that asks for the newest page of a collection at the time
/// `now`, in seconds.
pub fn first_page_token(now: u64) -> (r: String)
    ensures
        r@ == decimal(now as nat) + ":0:a::"@,
{
    let mut out: Vec<char> = Vec::new();
    push_decimal(&mut out, now);
    push_str(&mut out, ":0:a::");
    string_of(&out)
}

/// Why a download page could not be read.
#[derive(Debug, Clone, Copy, PartialEq, Eq, Structural)]
pub enum PageError {
    /// The expression to search with could not be compiled.
    Pattern,
    /// The page holds no data.
    NoPageData,
}

/// The expression that finds the data of a download page.
pub open spec fn page_data_pattern() -> Seq<char> {
    "id=\"pagedata\"\\s+data-blob=\"([^\"]+)\""@
}

/// The data that a download page carries, with character references
/// resolved.
pub open spec fn page_data_of(html: Seq<char>) -> Result<Seq<char>, PageError> {
    match regex_first(page_data_pattern(), html) {
        None => Err(PageError::Pattern),
        Some(None) => Err(PageError::NoPageData),
        Some(Some(groups)) => match group_of(groups, 1) {
            Some(blob) => Ok(entities_decoded(blob)),
            None => Err(PageError::NoPageData),
        },
    }
}

/// Finds the data that a download page carries in an attribute, and
/// resolves the character references in it.
pub fn find_page_data(html: &str) -> (r: Result<String, PageError>)
    ensures
        match page_data_of(html@) {
            Ok(data) => r is Ok && r->Ok_0@ == data,
            Err(fault) => r == Err::<String, PageError>(fault),
        },
{
    match first_match("id=\"pagedata\"\\s+data-blob=\"([^\"]+)\"", html) {
        Err(_) => Err(PageError::Pattern),
        Ok(None) => Err(PageError::NoPageData),
        Ok(Some(groups)) => match group(&groups, 1) {
            Some(blob) => Ok(decode_html_entities(blob.as_str())),
            None => Err(PageError::NoPageData),
        },
    }
}

/// The first address listed under `key`, if there is one.
pub open spec fn listed_url(urls: Seq<(String, String)>, key: Seq<char>) -> Option<Seq<char>>
    decreases urls.len(),
{
    if urls.len() == 0 {
        None
    } else if urls[0].0@ == key {
        Some(urls[0].1@)
    } else {
        listed_url(urls.drop_first(), key)
    }
}

/// Looks up the address listed under `key`.
pub fn find_url(urls: &Vec<(String, String)>, key: &String) -> (r: Option<String>)
    ensures
        opt_chars(r) == listed_url(urls@, key@),
{
    let mut i: usize = 0;
    assert(urls@.skip(0) =~= urls@);
    while i < urls.len()
        invariant
            i <= urls.len(),
            listed_url(urls@, key@) == listed_url(urls@.skip(i as int), key@),
        decreases urls.len() - i,
    {
        assert(urls@.skip(i as int).drop_first() =~= urls@.skip(i + 1));
        if urls[i].0 == *key {
            return Some(urls[i].1.clone());
        }
        i += 1;
    }
    None
}

proof fn listed_after_push(urls: Seq<(String, String)>, entry: (String, String), key: Seq<char>)
    ensures
        listed_url(urls.push(entry), key) == (if listed_url(urls, key) is Some {
            listed_url(urls, key)
        } else if entry.0@ == key {
            Some(entry.1@)
        } else {
            None
        }),
    decreases urls.len(),
{
    if urls.len() > 0 {
        assert(urls.push(entry).drop_first() =~= urls.drop_first().push(entry));
        listed_after_push(urls.drop_first(), entry, key);
    } else {
        assert(urls.push(entry).drop_first() =~= urls);
    }
}

proof fn listed_after_update(
    urls: Seq<(String, String)>,
    i: int,
    entry: (String, String),
    key: Seq<char>,
)
    requires
        0 <= i < urls.len(),
        urls[i].0@ == entry.0@,
        forall|j: int| 0 <= j < i ==> (#[trigger] urls[j]).0@ != entry.0@,
    ensures
        listed_url(urls.update(i, entry), key) == (if key == entry.0@ {
            Some(entry.1@)
        } else {
            listed_url(urls, key)
        }),
    decreases urls.len(),
{
    if i > 0 {
        assert(urls.update(i, entry).drop_first() =~= urls.drop_first().update(i - 1, entry));
        assert forall|j: int| 0 <= j < i - 1 implies (#[trigger] urls.drop_first()[j]).0@
            != entry.0@ by {
            assert(urls.drop_first()[j] == urls[j + 1]);
        }
        assert(urls[0].0@ != entry.0@);
        listed_after_update(urls.drop_first(), i - 1, entry, key);
    } else {
        assert(urls.update(i, entry).drop_first() =~= urls.drop_first());
    }
}

/// Lists `value` under `key`, in place of what was listed under it.
pub fn put_url(urls: &mut Vec<(String, String)>, key: String, value: String)
    ensures
        forall|k: Seq<char>|
            #[trigger] listed_url(final(urls)@, k) == (if k == key@ {
                Some(value@)
            } else {
                listed_url(old(urls)@, k)
            }),
{
    let mut i: usize = 0;
    while i < urls.len()
        invariant
            i <= urls.len(),
            urls@ == old(urls)@,
            forall|j: int| 0 <= j < i ==> (#[trigger] urls@[j]).0@ != key@,
        decreases urls.len() - i,
    {
        if urls[i].0 == key {
            let ghost entry = (key, value);
            urls.set(i, (key, value));
            proof {
                assert forall|k: Seq<char>| #[trigger] listed_url(urls@, k) == (if k == key@ {
                    Some(value@)
                } else {
                    listed_url(old(urls)@, k)
                }) by {
                    listed_after_update(old(urls)@, i as int, entry, k);
                }
            }
            return;
        }
        i += 1;
    }
    let ghost entry = (key, value);
    urls.push((key, value));
    proof {
        assert forall|k: Seq<char>| #[trigger] listed_url(urls@, k) == (if k == key@ {
            Some(value@)
        } else {
            listed_url(old(urls)@, k)
        }) by {
            listed_after_push(old(urls)@, entry, k);
            none_listed(old(urls)@, key@);
        }
    }
}

proof fn none_listed(urls: Seq<(String, String)>, key: Seq<char>)
    requires
        forall|j: int| 0 <= j < urls.len() ==> (#[trigger] urls[j]).0@ != key,
    ensures
        listed_url(urls, key) is None,
    decreases urls.len(),
{
    if urls.len() > 0 {
        assert forall|j: int| 0 <= j < urls.drop_first().len() implies (
        #[trigger] urls.drop_first()[j]).0@ != key by {
            assert(urls.drop_first()[j] == urls[j + 1]);
        }
        assert(urls[0].0@ != key);
        none_listed(urls.drop_first(), key);
    }
}

/// Takes one page of a collection into what has been gathered so far, and
/// returns the token that asks for the next page, if there is one to ask
/// for. An empty page ends the listing and adds nothing. Any other page
/// adds its items behind those gathered, and its addresses in place of
/// those gathered under the same keys; it ends the listing when it says
/// that no more is to be had.
pub fn absorb_page(
    items: &mut Vec<BandcampCollectionItem>,
    urls: &mut Vec<(String, String)>,
    page: BandcampCollectionResponse,
) -> (next: Option<String>)
    ensures
        page.items@.len() == 0 ==> next is None && final(items)@ == old(items)@ && final(urls)@
            == old(urls)@,
        page.items@.len() > 0 ==> final(items)@ == old(items)@ + page.items@ && opt_chars(next)
            == (if page.more_available {
            Some(page.items@.last().token@)
        } else {
            None
        }),
        page.items@.len() > 0 ==> forall|k: Seq<char>|
            #[trigger] listed_url(final(urls)@, k) == (if listed_url(page.redownload_urls@, k)
                is Some {
                listed_url(page.redownload_urls@, k)
            } else {
                listed_url(old(urls)@, k)
            }),
{
    if page.items.len() == 0 {
        return None;
    }
    let token = page.items[page.items.len() - 1].token.clone();
    let more = page.more_available;
    let ghost added = page.items@;
    let BandcampCollectionResponse { more_available: _, last_token: _, redownload_urls, items: mut fresh } = page;
    let mut pairs = redownload_urls;
    let ghost listed = pairs@;
    assert(listed.skip(listed.len() as int) =~= Seq::empty());
    while pairs.len() > 0
        invariant
            fresh@ == added,
            pairs@ == listed.take(pairs@.len() as int),
            pairs@.len() <= listed.len(),
            forall|k: Seq<char>|
                #[trigger] listed_url(urls@, k) == (if listed_url(
                    listed.skip(pairs@.len() as int),
                    k,
                ) is Some {
                    listed_url(listed.skip(pairs@.len() as int), k)
                } else {
                    listed_url(old(urls)@, k)
                }),
        decreases pairs.len(),
    {
        let ghost n = pairs@.len() as int;
        let ghost before = urls@;
        match pairs.pop() {
            Some((key, value)) => {
                put_url(urls, key, value);
                proof {
                    assert(listed[n - 1] == (key, value));
                    assert(listed.skip(n - 1).drop_first() =~= listed.skip(n));
                    assert(pairs@ =~= listed.take(n - 1));
                    assert forall|k: Seq<char>| #[trigger] listed_url(urls@, k) == (if listed_url(
                        listed.skip(n - 1),
                        k,
                    ) is Some {
                        listed_url(listed.skip(n - 1), k)
                    } else {
                        listed_url(old(urls)@, k)
                    }) by {
                        let _ = listed_url(before, k);
                    }
                }
            },
            None => {},
        }
    }
    assert(listed.skip(0) =~= listed);
    items.append(&mut fresh);
    if more {
        Some(token)
    } else {
        None
    }
}

} // verus!
