//! Credentials for the services, as a configuration file and the
//! environment give them.

use vstd::prelude::*;
use crate::models::{clone_opt, opt_chars};
use crate::path::{join, joined};
use crate::text::{chars_of, drop_whitespace, skip_whitespace, slice_of, string_of, trim};

verus! {

#[derive(Debug)]
pub struct Config {
    pub qobuz: Option<QobuzConfig>,
    pub bandcamp: Option<BandcampConfig>,
}

#[derive(Debug)]
pub struct QobuzConfig {
    pub username: String,
    pub password: String,
    pub app_id: Option<String>,
    pub app_secret: Option<String>,
}

#[derive(Debug)]
pub struct BandcampConfig {
    pub identity_cookie: String,
}

/// What a configuration file holds: a section for each service, and the
/// keys that an older form of the file has outside any section.
#[derive(Debug)]
pub struct FileConfig {
    pub qobuz: Option<QobuzFileSection>,
    pub bandcamp: Option<BandcampFileSection>,
    pub username: Option<String>,
    pub password: Option<String>,
    pub app_id: Option<String>,
    pub app_secret: Option<String>,
}

#[derive(Debug)]
pub struct QobuzFileSection {
    pub username: Option<String>,
    pub password: Option<String>,
    pub app_id: Option<String>,
    pub app_secret: Option<String>,
}

#[derive(Debug)]
pub struct BandcampFileSection {
    pub identity_cookie: Option<String>,
}

pub struct QobuzView {
    pub username: Seq<char>,
    pub password: Seq<char>,
    pub app_id: Option<Seq<char>>,
    pub app_secret: Option<Seq<char>>,
}

impl View for QobuzConfig {
    type V = QobuzView;

    open spec fn view(&self) -> QobuzView {
        QobuzView {
            username: self.username@,
            password: self.password@,
            app_id: opt_chars(self.app_id),
            app_secret: opt_chars(self.app_secret),
        }
    }
}

/// The view of an optional service configuration.
pub open spec fn opt_qobuz(c: Option<QobuzConfig>) -> Option<QobuzView> {
    match c {
        Some(q) => Some(q@),
        None => None,
    }
}

/// The cookie of an optional service configuration.
pub open spec fn opt_cookie(c: Option<BandcampConfig>) -> Option<Seq<char>> {
    match c {
        Some(b) => Some(b.identity_cookie@),
        None => None,
    }
}

/// The value of a key that may stand in a section and outside of it: the
/// section's value where the section has one, and else the other.
pub open spec fn section_first(in_section: Option<Seq<char>>, outside: Option<Seq<char>>) -> Option<
    Seq<char>,
> {
    if in_section is Some {
        in_section
    } else {
        outside
    }
}

/// A value that counts only if it is not empty.
pub open spec fn non_empty(value: Option<Seq<char>>) -> Option<Seq<char>> {
    if value is Some && value->0.len() > 0 {
        value
    } else {
        None
    }
}

/// The user name that the file gives.
pub open spec fn file_username(fc: FileConfig) -> Option<Seq<char>> {
    non_empty(
        section_first(
            match fc.qobuz {
                Some(q) => opt_chars(q.username),
                None => None,
            },
            opt_chars(fc.username),
        ),
    )
}

/// The password that the file gives.
pub open spec fn file_password(fc: FileConfig) -> Option<Seq<char>> {
    non_empty(
        section_first(
            match fc.qobuz {
                Some(q) => opt_chars(q.password),
                None => None,
            },
            opt_chars(fc.password),
        ),
    )
}

/// The application id that the file gives.
pub open spec fn file_app_id(fc: FileConfig) -> Option<Seq<char>> {
    section_first(
        match fc.qobuz {
            Some(q) => opt_chars(q.app_id),
            None => None,
        },
        opt_chars(fc.app_id),
    )
}

/// The application secret that the file gives.
pub open spec fn file_app_secret(fc: FileConfig) -> Option<Seq<char>> {
    section_first(
        match fc.qobuz {
            Some(q) => opt_chars(q.app_secret),
            None => None,
        },
        opt_chars(fc.app_secret),
    )
}

/// The identity cookie that the file gives.
pub open spec fn file_identity(fc: FileConfig) -> Option<Seq<char>> {
    non_empty(
        match fc.bandcamp {
            Some(b) => opt_chars(b.identity_cookie),
            None => None,
        },
    )
}

/// The configuration of the first service, given a user name and a
/// password: it needs both.
pub open spec fn qobuz_with(
    username: Option<Seq<char>>,
    password: Option<Seq<char>>,
    fc: FileConfig,
) -> Option<QobuzView> {
    if username is Some && password is Some {
        Some(
            QobuzView {
                username: username->0,
                password: password->0,
                app_id: file_app_id(fc),
                app_secret: file_app_secret(fc),
            },
        )
    } else {
        None
    }
}

fn pick(in_section: Option<String>, outside: &Option<String>) -> (r: Option<String>)
    ensures
        opt_chars(r) == section_first(opt_chars(in_section), opt_chars(*outside)),
{
    match in_section {
        Some(value) => Some(value),
        None => clone_opt(outside),
    }
}

fn keep_non_empty(value: Option<String>) -> (r: Option<String>)
    ensures
        opt_chars(r) == non_empty(opt_chars(value)),
{
    match value {
        Some(text) => {
            if text.as_str().unicode_len() > 0 {
                Some(text)
            } else {
                None
            }
        },
        None => None,
    }
}

/// The user name that the file gives: the section's, else the one outside
/// any section; an empty one counts as none.
pub fn qobuz_username_from_file(fc: &FileConfig) -> (r: Option<String>)
    ensures
        opt_chars(r) == file_username(*fc),
{
    let in_section = match &fc.qobuz {
        Some(q) => clone_opt(&q.username),
        None => None,
    };
    keep_non_empty(pick(in_section, &fc.username))
}

/// The password that the file gives: the section's, else the one outside
/// any section; an empty one counts as none.
pub fn qobuz_password_from_file(fc: &FileConfig) -> (r: Option<String>)
    ensures
        opt_chars(r) == file_password(*fc),
{
    let in_section = match &fc.qobuz {
        Some(q) => clone_opt(&q.password),
        None => None,
    };
    keep_non_empty(pick(in_section, &fc.password))
}

/// The application id that the file gives.
pub fn qobuz_app_id_from_file(fc: &FileConfig) -> (r: Option<String>)
    ensures
        opt_chars(r) == file_app_id(*fc),
{
    let in_section = match &fc.qobuz {
        Some(q) => clone_opt(&q.app_id),
        None => None,
    };
    pick(in_section, &fc.app_id)
}

/// The application secret that the file gives.
pub fn qobuz_app_secret_from_file(fc: &FileConfig) -> (r: Option<String>)
    ensures
        opt_chars(r) == file_app_secret(*fc),
{
    let in_section = match &fc.qobuz {
        Some(q) => clone_opt(&q.app_secret),
        None => None,
    };
    pick(in_section, &fc.app_secret)
}

/// The identity cookie that the file gives; an empty one counts as none.
pub fn bandcamp_identity_from_file(fc: &FileConfig) -> (r: Option<String>)
    ensures
        opt_chars(r) == file_identity(*fc),
{
    let in_section = match &fc.bandcamp {
        Some(b) => clone_opt(&b.identity_cookie),
        None => None,
    };
    keep_non_empty(in_section)
}

/// The configuration of the first service from a user name and a password
/// found in the environment, each of which the file stands in for where
/// the environment has none or an empty one.
pub fn resolve_qobuz(fc: &FileConfig, env_username: Option<String>, env_password: Option<String>) -> (r:
    Option<QobuzConfig>)
    ensures
        opt_qobuz(r) == qobuz_with(
            section_first(non_empty(opt_chars(env_username)), file_username(*fc)),
            section_first(non_empty(opt_chars(env_password)), file_password(*fc)),
            *fc,
        ),
{
    let username = match keep_non_empty(env_username) {
        Some(u) => Some(u),
        None => qobuz_username_from_file(fc),
    };
    let password = match keep_non_empty(env_password) {
        Some(p) => Some(p),
        None => qobuz_password_from_file(fc),
    };
    match (username, password) {
        (Some(username), Some(password)) => Some(
            QobuzConfig {
                username,
                password,
                app_id: qobuz_app_id_from_file(fc),
                app_secret: qobuz_app_secret_from_file(fc),
            },
        ),
        _ => None,
    }
}

/// The configuration of the first service as the file alone gives it.
pub fn resolve_qobuz_from_file(fc: &FileConfig) -> (r: Option<QobuzConfig>)
    ensures
        opt_qobuz(r) == qobuz_with(file_username(*fc), file_password(*fc), *fc),
{
    resolve_qobuz(fc, None, None)
}

/// The configuration of the second service from a cookie found in the
/// environment, which the file stands in for where the environment has
/// none or an empty one.
pub fn resolve_bandcamp(fc: &FileConfig, env_identity: Option<String>) -> (r: Option<BandcampConfig>)
    ensures
        opt_cookie(r) == section_first(non_empty(opt_chars(env_identity)), file_identity(*fc)),
{
    let cookie = match keep_non_empty(env_identity) {
        Some(c) => Some(c),
        None => bandcamp_identity_from_file(fc),
    };
    match cookie {
        Some(identity_cookie) => Some(BandcampConfig { identity_cookie }),
        None => None,
    }
}

/// The configuration of the second service as the file alone gives it.
pub fn resolve_bandcamp_from_file(fc: &FileConfig) -> (r: Option<BandcampConfig>)
    ensures
        opt_cookie(r) == file_identity(*fc),
{
    resolve_bandcamp(fc, None)
}

/// The configuration that the file alone gives.
pub fn config_from_file(fc: &FileConfig) -> (r: Config)
    ensures
        opt_qobuz(r.qobuz) == qobuz_with(file_username(*fc), file_password(*fc), *fc),
        opt_cookie(r.bandcamp) == file_identity(*fc),
{
    Config { qobuz: resolve_qobuz_from_file(fc), bandcamp: resolve_bandcamp_from_file(fc) }
}

/// The directory of configuration files: the one that the environment
/// names for them, or `.config` below the home directory.
pub open spec fn config_dir_of(config_home: Option<Seq<char>>, home: Option<Seq<char>>) -> Seq<
    char,
> {
    match config_home {
        Some(dir) => dir,
        None => joined(
            match home {
                Some(h) => h,
                None => Seq::empty(),
            },
            ".config"@,
        ),
    }
}

/// Where the configuration file lies.
pub fn config_path(config_home: Option<String>, home: Option<String>) -> (r: String)
    ensures
        r@ == joined(
            joined(config_dir_of(opt_chars(config_home), opt_chars(home)), "qoget"@),
            "config.toml"@,
        ),
{
    let dir = match config_home {
        Some(dir) => chars_of(dir.as_str()),
        None => {
            let h = match home {
                Some(h) => chars_of(h.as_str()),
                None => Vec::new(),
            };
            join(&h, &chars_of(".config"))
        },
    };
    string_of(&join(&join(&dir, &chars_of("qoget")), &chars_of("config.toml")))
}

/// Takes a user name as typed: white space around it is dropped, and
/// nothing but white space is refused.
pub fn accept_username(input: &str) -> (r: Result<String, String>)
    ensures
        match r {
            Ok(name) => name@ == trim(input@) && name@.len() > 0,
            Err(message) => trim(input@).len() == 0 && message@ == "Username cannot be empty"@,
        },
{
    let chars = chars_of(input);
    let start = skip_whitespace(&chars, 0, chars.len());
    let end = drop_whitespace(&chars, start, chars.len());
    proof {
        assert(chars@.subrange(0, chars@.len() as int) =~= chars@);
    }
    if start == end {
        Err("Username cannot be empty".to_owned())
    } else {
        Ok(string_of(&slice_of(&chars, start, end)))
    }
}

/// Takes a password as typed: an empty one is refused.
pub fn accept_password(input: String) -> (r: Result<String, String>)
    ensures
        match r {
            Ok(password) => password@ == input@ && input@.len() > 0,
            Err(message) => input@.len() == 0 && message@ == "Password cannot be empty"@,
        },
{
    if input.as_str().unicode_len() == 0 {
        Err("Password cannot be empty".to_owned())
    } else {
        Ok(input)
    }
}

} // verus!
