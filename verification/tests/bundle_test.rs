use base64::Engine;
use qoget::bundle::{
    capitalize_first, cut_tail_bytes, decode_secret, extract_candidates, find_bundle_url,
    login_url, secret_verdict, BundleError, SEED_TAIL_BYTES, VALIDATION_FORMAT_ID,
    VALIDATION_TRACK_ID,
};
use qoget::models::{parse_service, should_run, Service};

#[test]
fn first_letter_is_capitalised() {
    assert_eq!(capitalize_first("berlin"), "Berlin");
    assert_eq!(capitalize_first("London"), "London");
    assert_eq!(capitalize_first("a"), "A");
    assert_eq!(capitalize_first(""), "");
    assert_eq!(capitalize_first("ßeta"), "SSeta");
    assert_eq!(capitalize_first("1st"), "1st");
}

fn encode(text: &str) -> String {
    base64::engine::general_purpose::STANDARD.encode(text)
}

#[test]
fn secret_is_decoded_from_seed_and_additions() {
    let encoded = encode("my-app-secret-0123456789");
    let tail = "x".repeat(44);
    let (seed, rest) = encoded.split_at(10);
    let (info, extras_head) = rest.split_at(5);
    let extras = format!("{extras_head}{tail}");
    assert_eq!(decode_secret(seed, info, &extras), Some("my-app-secret-0123456789".to_string()));
    // exactly 44 bytes leave nothing to decode
    assert_eq!(decode_secret("", "", &tail), None);
    assert_eq!(decode_secret("short", "", ""), None);
    // what is left is no base64
    assert_eq!(decode_secret("***", "", &tail), None);
    // what is decoded is no UTF-8
    let bad = base64::engine::general_purpose::STANDARD.encode([0xffu8, 0xfe, 0xfd]);
    assert_eq!(decode_secret(&bad, "", &tail), None);
}

#[test]
fn tail_is_cut_by_bytes() {
    let chars = |s: &str| s.chars().collect::<Vec<char>>();
    assert_eq!(cut_tail_bytes(&chars("abcdef"), 2), Some(chars("abcd")));
    assert_eq!(cut_tail_bytes(&chars("abcdef"), 0), Some(chars("abcdef")));
    assert_eq!(cut_tail_bytes(&chars("abcdef"), 6), None);
    assert_eq!(cut_tail_bytes(&chars("abcdef"), 7), None);
    assert_eq!(cut_tail_bytes(&chars(""), 0), None);
    assert_eq!(cut_tail_bytes(&chars("aé"), 2), Some(chars("a")));
    assert_eq!(cut_tail_bytes(&chars("aé"), 1), None);
    assert_eq!(cut_tail_bytes(&chars("aéb"), 3), Some(chars("a")));
    assert_eq!(SEED_TAIL_BYTES, 44);
}

#[test]
fn bundle_address_is_found_in_the_login_page() {
    let html = "<html><script src=\"/resources/7.1.2-b011/bundle.js\"></script></html>";
    assert_eq!(
        find_bundle_url(html),
        Ok("https://play.qobuz.com/resources/7.1.2-b011/bundle.js".to_string())
    );
    assert_eq!(find_bundle_url("<html></html>"), Err(BundleError::NoBundleUrl));
    assert_eq!(find_bundle_url("<script src=\"/resources/x/bundleXjs\">"), Err(BundleError::NoBundleUrl));
    assert_eq!(login_url(), "https://play.qobuz.com/login");
}

fn bundle_with(seeds: &[(&str, &str)], zones: &[(&str, &str, &str)]) -> String {
    let mut text = String::from("var x={production:{api:{appId:\"123456789\",appSecret:\"\"}}};");
    for (seed, zone) in seeds {
        text.push_str(&format!("d.initialSeed(\"{seed}\",window.utimezone.{zone});"));
    }
    for (zone, info, extras) in zones {
        text.push_str(&format!("{{name:\"Europe/{zone}\",info:\"{info}\",extras:\"{extras}\"}},"));
    }
    text
}

#[test]
fn candidates_are_read_from_the_script() {
    let tail = "A".repeat(44);
    let first = encode("secret-of-berlin-1234567");
    let second = encode("secret-of-london-7654321");
    let bundle = bundle_with(
        &[(&first[..8], "berlin"), (&second[..8], "london"), ("AAAA", "paris")],
        &[
            ("Berlin", &first[8..16], &format!("{}{tail}", &first[16..])),
            ("London", &second[8..16], &format!("{}{tail}", &second[16..])),
        ],
    );
    let found = extract_candidates(&bundle).unwrap();
    assert_eq!(found.app_id, "123456789");
    // the first two seeds are tried in exchanged order; the third has no additions
    assert_eq!(
        found.secrets,
        vec!["secret-of-london-7654321".to_string(), "secret-of-berlin-1234567".to_string()]
    );
}

#[test]
fn script_without_what_is_needed_is_refused() {
    assert_eq!(extract_candidates("nothing here").unwrap_err(), BundleError::NoAppId);
    let only_id = bundle_with(&[], &[]);
    assert_eq!(extract_candidates(&only_id).unwrap_err(), BundleError::TooFewSeeds { found: 0 });
    let one = bundle_with(&[("abcd", "berlin")], &[]);
    assert_eq!(extract_candidates(&one).unwrap_err(), BundleError::TooFewSeeds { found: 1 });
    let none = bundle_with(&[("abcd", "berlin"), ("efgh", "london")], &[("Berlin", "x", "y")]);
    assert_eq!(extract_candidates(&none).unwrap_err(), BundleError::NoCandidates);
    assert_eq!(
        BundleError::TooFewSeeds { found: 1 }.message(),
        "Expected at least 2 seed/timezone pairs, found 1"
    );
    assert_eq!(
        BundleError::NoValidSecret { candidates: 3 }.message(),
        "No valid app_secret found among 3 candidates"
    );
    assert_eq!(BundleError::NoAppId.message(), "Could not extract app_id from bundle.js");
}

#[test]
fn verdict_on_a_secret_follows_the_status() {
    assert_eq!(secret_verdict(200), Some(true));
    assert_eq!(secret_verdict(401), Some(true));
    assert_eq!(secret_verdict(400), Some(false));
    assert_eq!(secret_verdict(500), None);
    assert_eq!(secret_verdict(403), None);
    assert_eq!(VALIDATION_TRACK_ID, 19512574);
    assert_eq!(VALIDATION_FORMAT_ID, 27);
}

#[test]
fn services_are_read_by_name() {
    assert_eq!(parse_service("qobuz"), Ok(Service::Qobuz));
    assert_eq!(parse_service("Bandcamp"), Ok(Service::Bandcamp));
    assert_eq!(parse_service("QOBUZ"), Ok(Service::Qobuz));
    assert_eq!(
        parse_service("tidal"),
        Err("Unknown service 'tidal'. Supported services: qobuz, bandcamp".to_string())
    );
    assert!(parse_service("").is_err());
    assert!(parse_service("qobuz ").is_err());
    assert_eq!(Service::Qobuz.name(), "Qobuz");
    assert_eq!(Service::Bandcamp.name(), "Bandcamp");
    assert!(should_run(None, Service::Qobuz));
    assert!(should_run(Some(Service::Qobuz), Service::Qobuz));
    assert!(!should_run(Some(Service::Qobuz), Service::Bandcamp));
}
