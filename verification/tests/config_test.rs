use qoget::config::{
    accept_password, accept_username, bandcamp_identity_from_file, config_from_file, config_path,
    qobuz_app_id_from_file, qobuz_app_secret_from_file, qobuz_password_from_file,
    qobuz_username_from_file, resolve_bandcamp, resolve_bandcamp_from_file, resolve_qobuz,
    resolve_qobuz_from_file, BandcampFileSection, FileConfig, QobuzFileSection,
};

fn s(text: &str) -> Option<String> {
    Some(text.to_string())
}

fn empty() -> FileConfig {
    FileConfig { qobuz: None, bandcamp: None, username: None, password: None, app_id: None, app_secret: None }
}

fn section(username: Option<String>, password: Option<String>) -> Option<QobuzFileSection> {
    Some(QobuzFileSection { username, password, app_id: None, app_secret: None })
}

fn cookie(value: &str) -> Option<BandcampFileSection> {
    Some(BandcampFileSection { identity_cookie: s(value) })
}

#[test]
fn new_format_qobuz_only() {
    let fc = FileConfig { qobuz: section(s("user@example.com"), s("secret")), ..empty() };
    let cfg = config_from_file(&fc);
    let q = cfg.qobuz.expect("qobuz should be configured");
    assert_eq!(q.username, "user@example.com");
    assert_eq!(q.password, "secret");
    assert!(q.app_id.is_none());
    assert!(cfg.bandcamp.is_none());
}

#[test]
fn new_format_both_services() {
    let fc = FileConfig {
        qobuz: section(s("user@example.com"), s("secret")),
        bandcamp: cookie("6%09abc"),
        ..empty()
    };
    let cfg = config_from_file(&fc);
    assert!(cfg.qobuz.is_some());
    let b = cfg.bandcamp.expect("bandcamp should be configured");
    assert_eq!(b.identity_cookie, "6%09abc");
}

#[test]
fn old_format_bare_keys() {
    let fc = FileConfig { username: s("user@example.com"), password: s("secret"), ..empty() };
    let cfg = config_from_file(&fc);
    let q = cfg.qobuz.expect("qobuz via bare keys");
    assert_eq!(q.username, "user@example.com");
    assert_eq!(q.password, "secret");
    assert!(cfg.bandcamp.is_none());
}

#[test]
fn mixed_bare_keys_and_bandcamp_section() {
    let fc = FileConfig {
        username: s("user@example.com"),
        password: s("secret"),
        bandcamp: cookie("cookie-val"),
        ..empty()
    };
    let cfg = config_from_file(&fc);
    assert!(cfg.qobuz.is_some());
    assert!(cfg.bandcamp.is_some());
}

#[test]
fn bandcamp_only() {
    let fc = FileConfig { bandcamp: cookie("cookie-val"), ..empty() };
    let cfg = config_from_file(&fc);
    assert!(cfg.qobuz.is_none());
    let b = cfg.bandcamp.expect("bandcamp should be configured");
    assert_eq!(b.identity_cookie, "cookie-val");
}

#[test]
fn empty_config() {
    let cfg = config_from_file(&empty());
    assert!(cfg.qobuz.is_none());
    assert!(cfg.bandcamp.is_none());
}

#[test]
fn section_takes_precedence_over_bare_keys() {
    let fc = FileConfig {
        username: s("bare@example.com"),
        password: s("bare-pass"),
        qobuz: section(s("section@example.com"), s("section-pass")),
        ..empty()
    };
    let cfg = config_from_file(&fc);
    let q = cfg.qobuz.expect("qobuz");
    assert_eq!(q.username, "section@example.com");
    assert_eq!(q.password, "section-pass");
}

#[test]
fn app_id_and_secret_from_section() {
    let fc = FileConfig {
        qobuz: Some(QobuzFileSection {
            username: s("user@example.com"),
            password: s("secret"),
            app_id: s("123456789"),
            app_secret: s("abc-secret"),
        }),
        ..empty()
    };
    let cfg = config_from_file(&fc);
    let q = cfg.qobuz.expect("qobuz");
    assert_eq!(q.app_id.as_deref(), Some("123456789"));
    assert_eq!(q.app_secret.as_deref(), Some("abc-secret"));
}

#[test]
fn app_id_from_bare_keys() {
    let fc = FileConfig {
        username: s("user@example.com"),
        password: s("secret"),
        app_id: s("987654321"),
        app_secret: s("xyz-secret"),
        ..empty()
    };
    let cfg = config_from_file(&fc);
    let q = cfg.qobuz.expect("qobuz");
    assert_eq!(q.app_id.as_deref(), Some("987654321"));
    assert_eq!(q.app_secret.as_deref(), Some("xyz-secret"));
}

#[test]
fn empty_strings_treated_as_missing() {
    let fc = FileConfig { qobuz: section(s(""), s("secret")), ..empty() };
    let cfg = config_from_file(&fc);
    assert!(cfg.qobuz.is_none());
}

#[test]
fn username_without_password_is_incomplete() {
    let fc = FileConfig { qobuz: section(s("user@example.com"), None), ..empty() };
    let cfg = config_from_file(&fc);
    assert!(cfg.qobuz.is_none());
}

#[test]
fn bare_username_without_password_is_incomplete() {
    let fc = FileConfig { username: s("user@example.com"), ..empty() };
    let cfg = config_from_file(&fc);
    assert!(cfg.qobuz.is_none());
}

#[test]
fn empty_bandcamp_cookie_treated_as_missing() {
    let fc = FileConfig { bandcamp: cookie(""), ..empty() };
    let cfg = config_from_file(&fc);
    assert!(cfg.bandcamp.is_none());
}

#[test]
fn empty_section_value_hides_the_bare_key() {
    let fc = FileConfig {
        qobuz: section(s(""), None),
        username: s("bare@example.com"),
        password: s("bare-pass"),
        ..empty()
    };
    assert_eq!(qobuz_username_from_file(&fc), None);
    assert_eq!(qobuz_password_from_file(&fc), s("bare-pass"));
    assert!(resolve_qobuz_from_file(&fc).is_none());
}

#[test]
fn app_credentials_are_kept_even_when_empty() {
    let fc = FileConfig {
        qobuz: Some(QobuzFileSection { username: None, password: None, app_id: s(""), app_secret: None }),
        app_id: s("bare-id"),
        app_secret: s("bare-secret"),
        ..empty()
    };
    assert_eq!(qobuz_app_id_from_file(&fc), s(""));
    assert_eq!(qobuz_app_secret_from_file(&fc), s("bare-secret"));
    assert_eq!(bandcamp_identity_from_file(&fc), None);
    assert!(resolve_bandcamp_from_file(&fc).is_none());
}

#[test]
fn environment_comes_before_the_file() {
    let fc = FileConfig {
        qobuz: section(s("file@example.com"), s("file-pass")),
        bandcamp: cookie("file-cookie"),
        app_id: s("id"),
        ..empty()
    };
    let q = resolve_qobuz(&fc, s("env@example.com"), None).unwrap();
    assert_eq!(q.username, "env@example.com");
    assert_eq!(q.password, "file-pass");
    assert_eq!(q.app_id.as_deref(), Some("id"));
    let q = resolve_qobuz(&fc, s(""), s("env-pass")).unwrap();
    assert_eq!(q.username, "file@example.com");
    assert_eq!(q.password, "env-pass");
    assert!(resolve_qobuz(&empty(), s("env@example.com"), None).is_none());
    assert!(resolve_qobuz(&empty(), s("env@example.com"), s("p")).is_some());
    assert_eq!(resolve_bandcamp(&fc, s("env-cookie")).unwrap().identity_cookie, "env-cookie");
    assert_eq!(resolve_bandcamp(&fc, s("")).unwrap().identity_cookie, "file-cookie");
    assert!(resolve_bandcamp(&empty(), None).is_none());
}

#[test]
fn config_file_lies_below_the_configuration_directory() {
    assert_eq!(config_path(s("/xdg"), s("/home/u")), "/xdg/qoget/config.toml");
    assert_eq!(config_path(None, s("/home/u")), "/home/u/.config/qoget/config.toml");
    assert_eq!(config_path(None, None), ".config/qoget/config.toml");
    assert_eq!(config_path(s(""), None), "qoget/config.toml");
}

#[test]
fn typed_credentials_are_checked() {
    assert_eq!(accept_username("  me@example.com \n"), Ok("me@example.com".to_string()));
    assert_eq!(accept_username(" \n"), Err("Username cannot be empty".to_string()));
    assert_eq!(accept_username(""), Err("Username cannot be empty".to_string()));
    assert_eq!(accept_password(" p ".to_string()), Ok(" p ".to_string()));
    assert_eq!(accept_password(String::new()), Err("Password cannot be empty".to_string()));
}
