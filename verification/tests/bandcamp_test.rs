use qoget::bandcamp::{
    aac_hi_url, absorb_page, auth_status, decode_html_entities, extract_title_from_url,
    find_page_data, find_url, first_page_token, is_zip_magic, parse_zip_track_filename, put_url,
    to_purchase_list, AuthStatus, BandcampPurchases, PageError,
};
use qoget::models::{
    BandcampCollectionItem, BandcampCollectionResponse, BandcampDownloadFormat,
    BandcampDownloadInfo,
};

fn format(url: &str, size: &str) -> BandcampDownloadFormat {
    BandcampDownloadFormat { url: url.to_string(), size_mb: size.to_string() }
}

#[test]
fn aac_hi_url_found() {
    let downloads = vec![
        ("aac-hi".to_string(), format("https://example.com/aac", "90MB")),
        ("mp3-320".to_string(), format("https://example.com/mp3", "120MB")),
    ];

    let info = BandcampDownloadInfo {
        item_id: 1,
        title: "Test".to_string(),
        artist: "Artist".to_string(),
        download_type: "a".to_string(),
        downloads,
    };

    let url = aac_hi_url(&info).unwrap();
    assert_eq!(url, "https://example.com/aac");
}

#[test]
fn aac_hi_url_missing() {
    let downloads = vec![("mp3-320".to_string(), format("https://example.com/mp3", "120MB"))];

    let info = BandcampDownloadInfo {
        item_id: 1,
        title: "Test Album".to_string(),
        artist: "Test Artist".to_string(),
        download_type: "a".to_string(),
        downloads,
    };

    let err = aac_hi_url(&info).unwrap_err();
    let msg = format!("{err}");
    assert!(msg.contains("aac-hi"), "error should mention aac-hi: {msg}");
    assert!(msg.contains("mp3-320"), "error should list available formats: {msg}");
}

#[test]
fn aac_hi_url_missing_lists_every_format() {
    let info = BandcampDownloadInfo {
        item_id: 1,
        title: "T".to_string(),
        artist: "A".to_string(),
        download_type: "a".to_string(),
        downloads: vec![
            ("mp3-320".to_string(), format("u1", "1MB")),
            ("flac".to_string(), format("u2", "2MB")),
        ],
    };
    assert_eq!(
        aac_hi_url(&info).unwrap_err(),
        "No aac-hi format available for \"T\" by A. Available formats: mp3-320, flac"
    );
    let none = BandcampDownloadInfo {
        item_id: 1,
        title: "T".to_string(),
        artist: "A".to_string(),
        download_type: "a".to_string(),
        downloads: vec![],
    };
    assert_eq!(
        aac_hi_url(&none).unwrap_err(),
        "No aac-hi format available for \"T\" by A. Available formats: "
    );
}

#[test]
fn aac_hi_url_takes_the_right_entry() {
    let info = BandcampDownloadInfo {
        item_id: 1,
        title: "T".to_string(),
        artist: "A".to_string(),
        download_type: "a".to_string(),
        downloads: vec![
            ("flac".to_string(), format("https://example.com/flac", "1MB")),
            ("aac-hi".to_string(), format("https://example.com/aac", "2MB")),
        ],
    };
    assert_eq!(aac_hi_url(&info).unwrap(), "https://example.com/aac");
}

#[test]
fn parse_standard_filename() {
    let (num, title) = parse_zip_track_filename("01 Dream House.m4a");
    assert_eq!(num, 1);
    assert_eq!(title, "Dream House");
}

#[test]
fn parse_dash_separator() {
    let (num, title) = parse_zip_track_filename("03 - Sunbather.m4a");
    assert_eq!(num, 3);
    assert_eq!(title, "Sunbather");
}

#[test]
fn parse_dot_separator() {
    let (num, title) = parse_zip_track_filename("12. The Pecan Tree.m4a");
    assert_eq!(num, 12);
    assert_eq!(title, "The Pecan Tree");
}

#[test]
fn parse_no_number() {
    let (num, title) = parse_zip_track_filename("Bonus Track.m4a");
    assert_eq!(num, 0);
    assert_eq!(title, "Bonus Track");
}

#[test]
fn parse_uppercase_extension() {
    let (num, title) = parse_zip_track_filename("05 Windows.M4A");
    assert_eq!(num, 5);
    assert_eq!(title, "Windows");
}

#[test]
fn parse_numbers_at_the_limits() {
    assert_eq!(parse_zip_track_filename("255 Last.m4a"), (255, "Last".to_string()));
    assert_eq!(parse_zip_track_filename("256 Over.m4a"), (0, "Over".to_string()));
    assert_eq!(parse_zip_track_filename("007 Bond.m4a"), (7, "Bond".to_string()));
    assert_eq!(parse_zip_track_filename("99999999999999999999 Big.m4a"), (0, "Big".to_string()));
    assert_eq!(parse_zip_track_filename("7.m4a"), (7, "".to_string()));
    assert_eq!(parse_zip_track_filename(""), (0, "".to_string()));
}

#[test]
fn parse_strips_repeated_suffixes_and_separators() {
    assert_eq!(parse_zip_track_filename("02 Song.m4a.m4a"), (2, "Song".to_string()));
    assert_eq!(parse_zip_track_filename("02 Song.M4A.m4a"), (2, "Song".to_string()));
    assert_eq!(parse_zip_track_filename("02 Song.m4a.M4A"), (2, "Song.m4a".to_string()));
    assert_eq!(parse_zip_track_filename("04 -  - Twice.m4a"), (4, "Twice".to_string()));
    assert_eq!(parse_zip_track_filename("04 - - Once.m4a"), (4, "- Once".to_string()));
    assert_eq!(parse_zip_track_filename("04 - . Both.m4a"), (4, "Both".to_string()));
    assert_eq!(parse_zip_track_filename("04. - Other.m4a"), (4, "- Other".to_string()));
    assert_eq!(parse_zip_track_filename("04Glued.m4a"), (4, "Glued".to_string()));
    assert_eq!(parse_zip_track_filename("04.Dot.m4a"), (4, ".Dot".to_string()));
}

fn make_item(band: &str, title: &str, item_id: u64, sale_type: &str) -> BandcampCollectionItem {
    BandcampCollectionItem {
        band_name: band.to_string(),
        item_title: title.to_string(),
        item_id,
        item_type: if sale_type == "a" { "album".to_string() } else { "track".to_string() },
        sale_item_type: sale_type.to_string(),
        sale_item_id: item_id,
        token: "tok".to_string(),
    }
}

#[test]
fn to_purchase_list_albums() {
    let purchases = BandcampPurchases {
        items: vec![
            make_item("Deafheaven", "Sunbather", 100, "a"),
            make_item("Alcest", "Kodama", 200, "a"),
        ],
        redownload_urls: Vec::new(),
    };

    let pl = to_purchase_list(&purchases);
    assert_eq!(pl.albums.len(), 2);
    assert_eq!(pl.tracks.len(), 0);

    assert_eq!(pl.albums[0].artist.name, "Deafheaven");
    assert_eq!(pl.albums[0].title, "Sunbather");
    assert_eq!(pl.albums[0].id.0, "bc-100");
    assert_eq!(pl.albums[0].media_count, 1);

    assert_eq!(pl.albums[1].artist.name, "Alcest");
    assert_eq!(pl.albums[1].title, "Kodama");
}

#[test]
fn to_purchase_list_tracks() {
    let purchases = BandcampPurchases {
        items: vec![make_item("Artist", "Single Track", 300, "t")],
        redownload_urls: Vec::new(),
    };

    let pl = to_purchase_list(&purchases);
    assert_eq!(pl.albums.len(), 0);
    assert_eq!(pl.tracks.len(), 1);

    assert_eq!(pl.tracks[0].title, "Single Track");
    assert_eq!(pl.tracks[0].id.0, 300);
    assert_eq!(pl.tracks[0].track_number.0, 1);
}

#[test]
fn to_purchase_list_mixed() {
    let purchases = BandcampPurchases {
        items: vec![
            make_item("Band A", "Album One", 100, "a"),
            make_item("Band B", "Cool Track", 200, "t"),
            make_item("Band C", "Album Two", 300, "a"),
        ],
        redownload_urls: Vec::new(),
    };

    let pl = to_purchase_list(&purchases);
    assert_eq!(pl.albums.len(), 2);
    assert_eq!(pl.tracks.len(), 1);
}

#[test]
fn to_purchase_list_unknown_type_skipped() {
    let purchases = BandcampPurchases {
        items: vec![make_item("Band", "Merch Item", 400, "m")],
        redownload_urls: Vec::new(),
    };

    let pl = to_purchase_list(&purchases);
    assert_eq!(pl.albums.len(), 0);
    assert_eq!(pl.tracks.len(), 0);
}

#[test]
fn to_purchase_list_fills_every_field() {
    let mut item = make_item("Band", "Song", 77, "t");
    item.sale_item_id = 9;
    let purchases = BandcampPurchases {
        items: vec![item, make_item("Other", "Record", 5, "a")],
        redownload_urls: Vec::new(),
    };
    let pl = to_purchase_list(&purchases);
    let t = &pl.tracks[0];
    assert_eq!(t.id.0, 77);
    assert_eq!(t.media_number.0, 1);
    assert_eq!(t.duration, 0);
    assert_eq!(t.performer.id, 9);
    assert_eq!(t.performer.name, "Band");
    assert!(t.isrc.is_none());
    let a = &pl.albums[0];
    assert_eq!(a.id.0, "bc-5");
    assert_eq!(a.tracks_count, 0);
    assert!(a.tracks.is_none());
    assert!(a.version.is_none());
    assert_eq!(a.artist.id, 5);
}

#[test]
fn zip_magic_is_recognised() {
    assert!(is_zip_magic(&[0x50, 0x4B, 0x03, 0x04]));
    assert!(is_zip_magic(&[0x50, 0x4B, 0x03, 0x04, 0x00, 0x01]));
    assert!(!is_zip_magic(&[0x50, 0x4B, 0x03]));
    assert!(!is_zip_magic(&[0x50, 0x4B, 0x05, 0x06]));
    assert!(!is_zip_magic(&[0x00, 0x50, 0x4B, 0x03, 0x04]));
    assert!(!is_zip_magic(&[]));
}

#[test]
fn title_comes_from_the_last_segment_of_the_address() {
    assert_eq!(extract_title_from_url("https://host/path/My Song.m4a?sig=1&x=/y"), "My Song");
    assert_eq!(extract_title_from_url("https://host/path/track"), "track");
    assert_eq!(extract_title_from_url("https://host/path/"), "");
    assert_eq!(extract_title_from_url("plain.m4a.m4a"), "plain");
    assert_eq!(extract_title_from_url("?only=query"), "");
    assert_eq!(extract_title_from_url(""), "");
}

#[test]
fn entities_are_decoded_in_order() {
    assert_eq!(decode_html_entities("{&quot;a&quot;:&quot;b&amp;c&quot;}"), "{\"a\":\"b&c\"}");
    assert_eq!(decode_html_entities("&lt;x&gt; &#39;y&#x27;"), "<x> 'y'");
    assert_eq!(decode_html_entities("&amp;lt;"), "<");
    assert_eq!(decode_html_entities("&amp;amp;"), "&amp;");
    assert_eq!(decode_html_entities("no entities"), "no entities");
    assert_eq!(decode_html_entities(""), "");
}

#[test]
fn auth_status_tells_rejection_from_other_failures() {
    assert_eq!(auth_status(200), AuthStatus::Accepted);
    assert_eq!(auth_status(204), AuthStatus::Accepted);
    assert_eq!(auth_status(401), AuthStatus::Rejected);
    assert_eq!(auth_status(403), AuthStatus::Rejected);
    assert_eq!(auth_status(500), AuthStatus::Unexpected);
    assert_eq!(auth_status(302), AuthStatus::Unexpected);
    assert_eq!(auth_status(199), AuthStatus::Unexpected);
}

#[test]
fn first_token_holds_the_time() {
    assert_eq!(first_page_token(1707955200), "1707955200:0:a::");
    assert_eq!(first_page_token(0), "0:0:a::");
}

#[test]
fn page_data_is_found_and_decoded() {
    let html = "<div id=\"pagedata\" data-blob=\"{&quot;digital_items&quot;:[]}\"></div>";
    assert_eq!(find_page_data(html).unwrap(), "{\"digital_items\":[]}");
    let spaced = "<div id=\"pagedata\"\n   data-blob=\"x&amp;y\">";
    assert_eq!(find_page_data(spaced).unwrap(), "x&y");
    assert_eq!(find_page_data("<div id=\"other\">"), Err(PageError::NoPageData));
    assert_eq!(find_page_data("id=\"pagedata\" data-blob=\"\""), Err(PageError::NoPageData));
}

#[test]
fn urls_are_listed_and_replaced() {
    let mut urls: Vec<(String, String)> = Vec::new();
    put_url(&mut urls, "a1".to_string(), "u1".to_string());
    put_url(&mut urls, "t2".to_string(), "u2".to_string());
    put_url(&mut urls, "a1".to_string(), "u3".to_string());
    assert_eq!(urls.len(), 2);
    assert_eq!(find_url(&urls, &"a1".to_string()), Some("u3".to_string()));
    assert_eq!(find_url(&urls, &"t2".to_string()), Some("u2".to_string()));
    assert_eq!(find_url(&urls, &"x".to_string()), None);
}

fn page(items: Vec<BandcampCollectionItem>, urls: Vec<(&str, &str)>, more: bool) -> BandcampCollectionResponse {
    BandcampCollectionResponse {
        more_available: more,
        last_token: String::new(),
        redownload_urls: urls.into_iter().map(|(k, v)| (k.to_string(), v.to_string())).collect(),
        items,
    }
}

#[test]
fn pages_are_absorbed_until_the_listing_ends() {
    let mut items = Vec::new();
    let mut urls = Vec::new();
    let mut first = make_item("A", "One", 1, "a");
    first.token = "t-one".to_string();
    let mut second = make_item("B", "Two", 2, "t");
    second.token = "t-two".to_string();
    let next = absorb_page(&mut items, &mut urls, page(vec![first, second], vec![("a1", "u1"), ("t2", "u2")], true));
    assert_eq!(next, Some("t-two".to_string()));
    assert_eq!(items.len(), 2);
    assert_eq!(find_url(&urls, &"a1".to_string()), Some("u1".to_string()));

    let mut third = make_item("C", "Three", 3, "a");
    third.token = "t-three".to_string();
    let next = absorb_page(&mut items, &mut urls, page(vec![third], vec![("a1", "new"), ("a3", "u3")], false));
    assert_eq!(next, None);
    assert_eq!(items.len(), 3);
    assert_eq!(items[2].item_title, "Three");
    assert_eq!(find_url(&urls, &"a1".to_string()), Some("new".to_string()));
    assert_eq!(find_url(&urls, &"t2".to_string()), Some("u2".to_string()));
    assert_eq!(find_url(&urls, &"a3".to_string()), Some("u3".to_string()));

    let next = absorb_page(&mut items, &mut urls, page(vec![], vec![("zz", "dropped")], true));
    assert_eq!(next, None);
    assert_eq!(items.len(), 3);
    assert_eq!(find_url(&urls, &"zz".to_string()), None);
}
