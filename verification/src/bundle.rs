//! Finding the application's credentials in the script of the web player.

use base64::Engine;
use vstd::prelude::*;
use vstd::utf8::{decode_utf8, valid_utf8};
use crate::models::opt_chars;
use crate::pattern::{
    all_matches, escape, first_match, group, group_of, groups_view, matches_view,
    regex_all, regex_escaped, regex_first,
};
use crate::text::{chars_of, char_width, push_all, push_str, slice_of, string_of, utf8_width};

verus! {

/// The track that a candidate secret is tried on.
pub const VALIDATION_TRACK_ID: u64 = 19512574;

/// The encoding that a candidate secret is tried with.
pub const VALIDATION_FORMAT_ID: u8 = 27;

/// How many bytes at the end of a combined seed are no part of the secret.
pub const SEED_TAIL_BYTES: usize = 44;

/// The upper-case form of a character, which may take several characters.
pub uninterp spec fn uppercase_of(c: char) -> Seq<char>;

/// `char::to_uppercase`: the characters of the upper-case form, in order.
#[verifier::external_body]
fn to_upper(c: char) -> (r: Vec<char>)
    ensures
        r@ == uppercase_of(c),
{
    c.to_uppercase().collect()
}

/// What a text in the standard base64 alphabet with padding decodes to,
/// if it is such a text.
pub uninterp spec fn base64_decoded(text: Seq<char>) -> Option<Seq<u8>>;

/// `Engine::decode` of the standard engine: the decoded bytes, or nothing
/// where the text is not valid.
#[verifier::external_body]
fn decode_base64(text: &str) -> (r: Option<Vec<u8>>)
    ensures
        match r {
            Some(bytes) => base64_decoded(text@) == Some(bytes@),
            None => base64_decoded(text@) is None,
        },
{
    base64::engine::general_purpose::STANDARD.decode(text).ok()
}

/// `String::from_utf8`: the text that the bytes encode, or nothing where
/// they are not valid UTF-8.
#[verifier::external_body]
fn text_from_utf8(bytes: Vec<u8>) -> (r: Option<String>)
    ensures
        match r {
            Some(text) => valid_utf8(bytes@) && text@ == decode_utf8(bytes@),
            None => !valid_utf8(bytes@),
        },
{
    String::from_utf8(bytes).ok()
}

/// `s` with its first character in upper case.
pub open spec fn capitalized(s: Seq<char>) -> Seq<char> {
    if s.len() == 0 {
        s
    } else {
        uppercase_of(s[0]) + s.skip(1)
    }
}

/// Puts the first character of `s` in upper case.
pub fn capitalize_first(s: &str) -> (r: String)
    ensures
        r@ == capitalized(s@),
{
    let chars = chars_of(s);
    if chars.len() == 0 {
        return string_of(&chars);
    }
    let mut out = to_upper(chars[0]);
    let rest = slice_of(&chars, 1, chars.len());
    push_all(&mut out, &rest);
    assert(chars@.subrange(1, chars@.len() as int) =~= s@.skip(1));
    string_of(&out)
}

/// How many characters at the end of `s` take exactly `n` bytes in UTF-8,
/// if some number of them does.
pub open spec fn tail_chars(s: Seq<char>, n: nat) -> Option<nat>
    decreases s.len(),
{
    if n == 0 {
        Some(0)
    } else if s.len() == 0 || utf8_width(s.last()) > n {
        None
    } else {
        match tail_chars(s.drop_last(), (n - utf8_width(s.last())) as nat) {
            Some(k) => Some(k + 1),
            None => None,
        }
    }
}

/// `s` without its last `n` bytes in UTF-8, where that leaves a text that
/// is not empty and ends at a character boundary.
pub open spec fn without_tail_bytes(s: Seq<char>, n: nat) -> Option<Seq<char>> {
    match tail_chars(s, n) {
        Some(k) => if k < s.len() {
            Some(s.take(s.len() - k))
        } else {
            None
        },
        None => None,
    }
}

/// Cuts the last `n` bytes off a text.
pub fn cut_tail_bytes(s: &Vec<char>, n: usize) -> (r: Option<Vec<char>>)
    ensures
        match r {
            Some(head) => without_tail_bytes(s@, n as nat) == Some(head@),
            None => without_tail_bytes(s@, n as nat) is None,
        },
{
    let mut left: usize = n;
    let mut end: usize = s.len();
    assert(s@.take(end as int) =~= s@);
    while left > 0
        invariant
            end <= s.len(),
            left <= n,
            tail_chars(s@, n as nat) == (match tail_chars(s@.take(end as int), left as nat) {
                Some(k) => Some((k + (s.len() - end)) as nat),
                None => None,
            }),
        decreases left,
    {
        if end == 0 {
            return None;
        }
        let w = char_width(s[end - 1]);
        assert(s@.take(end as int).last() == s@[end - 1]);
        assert(s@.take(end as int).drop_last() =~= s@.take(end - 1));
        if w > left {
            return None;
        }
        left -= w;
        end -= 1;
    }
    if end == 0 {
        return None;
    }
    let head = slice_of(s, 0, end);
    assert(s@.subrange(0, end as int) =~= s@.take(s@.len() - (s@.len() - end)));
    Some(head)
}

/// The secret that a seed with its two additions stands for: the three
/// joined, without the last 44 bytes, decoded from base64 and read as
/// UTF-8; nothing where one of these steps fails.
pub open spec fn secret_of(seed: Seq<char>, info: Seq<char>, extras: Seq<char>) -> Option<
    Seq<char>,
> {
    match without_tail_bytes(seed + info + extras, SEED_TAIL_BYTES as nat) {
        None => None,
        Some(text) => match base64_decoded(text) {
            None => None,
            Some(bytes) => if valid_utf8(bytes) {
                Some(decode_utf8(bytes))
            } else {
                None
            },
        },
    }
}

/// Works out the secret that a seed with its two additions stands for.
pub fn decode_secret(seed: &str, info: &str, extras: &str) -> (r: Option<String>)
    ensures
        opt_chars(r) == secret_of(seed@, info@, extras@),
{
    let mut combined = chars_of(seed);
    push_str(&mut combined, info);
    push_str(&mut combined, extras);
    match cut_tail_bytes(&combined, SEED_TAIL_BYTES) {
        None => None,
        Some(text) => match decode_base64(string_of(&text).as_str()) {
            None => None,
            Some(bytes) => text_from_utf8(bytes),
        },
    }
}

/// What a response to a request signed with a candidate secret says of the
/// secret: accepted, refused, or nothing that can be told.
pub fn secret_verdict(status: u16) -> (r: Option<bool>)
    ensures
        r == (if status == 200 || status == 401 {
            Some(true)
        } else if status == 400 {
            Some(false)
        } else {
            None
        }),
{
    if status == 200 || status == 401 {
        Some(true)
    } else if status == 400 {
        Some(false)
    } else {
        None
    }
}

/// Why no credentials were found.
#[derive(Debug, Clone, Copy, PartialEq, Eq, Structural)]
pub enum BundleError {
    /// An expression to search with could not be compiled.
    Pattern,
    /// The login page names no script.
    NoBundleUrl,
    /// The script holds no application id.
    NoAppId,
    /// The script holds fewer than two seeds.
    TooFewSeeds { found: usize },
    /// No seed of the script stands for a secret.
    NoCandidates,
    /// The service accepted none of the candidates.
    NoValidSecret { candidates: usize },
}

/// An error in words.
pub open spec fn message_of(error: BundleError) -> Seq<char> {
    match error {
        BundleError::Pattern => "Could not compile a search pattern"@,
        BundleError::NoBundleUrl => "Could not find bundle.js URL in login page"@,
        BundleError::NoAppId => "Could not extract app_id from bundle.js"@,
        BundleError::TooFewSeeds { found } => "Expected at least 2 seed/timezone pairs, found "@
            + crate::text::decimal(found as nat),
        BundleError::NoCandidates => "No candidate secrets could be extracted from bundle.js"@,
        BundleError::NoValidSecret { candidates } => "No valid app_secret found among "@
            + crate::text::decimal(candidates as nat) + " candidates"@,
    }
}

impl BundleError {
    /// The error in words.
    pub fn message(&self) -> (r: String)
        ensures
            r@ == message_of(*self),
    {
        let mut out: Vec<char> = Vec::new();
        match self {
            BundleError::Pattern => {
                push_str(&mut out, "Could not compile a search pattern");
            },
            BundleError::NoBundleUrl => {
                push_str(&mut out, "Could not find bundle.js URL in login page");
            },
            BundleError::NoAppId => {
                push_str(&mut out, "Could not extract app_id from bundle.js");
            },
            BundleError::TooFewSeeds { found } => {
                push_str(&mut out, "Expected at least 2 seed/timezone pairs, found ");
                crate::text::push_decimal(&mut out, *found as u64);
            },
            BundleError::NoCandidates => {
                push_str(&mut out, "No candidate secrets could be extracted from bundle.js");
            },
            BundleError::NoValidSecret { candidates } => {
                push_str(&mut out, "No valid app_secret found among ");
                crate::text::push_decimal(&mut out, *candidates as u64);
                push_str(&mut out, " candidates");
            },
        }
        string_of(&out)
    }
}

/// The address of the login page.
pub fn login_url() -> (r: &'static str)
    ensures
        r@ == "https://play.qobuz.com/login"@,
{
    "https://play.qobuz.com/login"
}

/// The expression that finds the script in the login page.
pub open spec fn bundle_pattern() -> Seq<char> {
    "<script src=\"(/resources/[^\"]+/bundle\\.js)\">"@
}

/// The expression that finds the application id in the script.
pub open spec fn app_id_pattern() -> Seq<char> {
    "production:\\{api:\\{appId:\"(\\d{9})\""@
}

/// The expression that finds the seeds in the script, each with the name
/// of its time zone.
pub open spec fn seed_pattern() -> Seq<char> {
    "[a-z]\\.initialSeed\\(\"([\\w=]+)\",window\\.utimezone\\.([a-z]+)\\)"@
}

/// The expression that finds the two additions to the seed of a time
/// zone.
pub open spec fn info_pattern(timezone: Seq<char>) -> Seq<char> {
    "name:\"\\w+/"@ + regex_escaped(capitalized(timezone))
        + "\",info:\"([\\w=]+)\",extras:\"([\\w=]+)\""@
}

/// The first group of the first match of `pattern` in `text`, or the fault
/// that nothing was found, given as `missing`.
pub open spec fn first_group_of(pattern: Seq<char>, text: Seq<char>, missing: BundleError) -> Result<
    Seq<char>,
    BundleError,
> {
    match regex_first(pattern, text) {
        None => Err(BundleError::Pattern),
        Some(None) => Err(missing),
        Some(Some(groups)) => match group_of(groups, 1) {
            Some(found) => Ok(found),
            None => Err(missing),
        },
    }
}

fn first_group(pattern: &str, text: &str, missing: BundleError) -> (r: Result<String, BundleError>)
    ensures
        match first_group_of(pattern@, text@, missing) {
            Ok(found) => r is Ok && r->Ok_0@ == found,
            Err(fault) => r == Err::<String, BundleError>(fault),
        },
{
    match first_match(pattern, text) {
        Err(_) => Err(BundleError::Pattern),
        Ok(None) => Err(missing),
        Ok(Some(groups)) => match group(&groups, 1) {
            Some(found) => Ok(found),
            None => Err(missing),
        },
    }
}

/// The address of the script that the login page names.
pub open spec fn bundle_url_of(login_html: Seq<char>) -> Result<Seq<char>, BundleError> {
    match first_group_of(bundle_pattern(), login_html, BundleError::NoBundleUrl) {
        Ok(path) => Ok("https://play.qobuz.com"@ + path),
        Err(fault) => Err(fault),
    }
}

/// Finds the address of the web player's script in its login page.
pub fn find_bundle_url(login_html: &str) -> (r: Result<String, BundleError>)
    ensures
        match bundle_url_of(login_html@) {
            Ok(url) => r is Ok && r->Ok_0@ == url,
            Err(fault) => r == Err::<String, BundleError>(fault),
        },
{
    match first_group(
        "<script src=\"(/resources/[^\"]+/bundle\\.js)\">",
        login_html,
        BundleError::NoBundleUrl,
    ) {
        Ok(path) => {
            let mut url = chars_of("https://play.qobuz.com");
            push_str(&mut url, path.as_str());
            Ok(string_of(&url))
        },
        Err(fault) => Err(fault),
    }
}

/// A seed with the name of its time zone.
pub open spec fn seed_pair(groups: Seq<Option<Seq<char>>>) -> (Seq<char>, Seq<char>) {
    (
        match group_of(groups, 1) {
            Some(seed) => seed,
            None => Seq::empty(),
        },
        match group_of(groups, 2) {
            Some(timezone) => timezone,
            None => Seq::empty(),
        },
    )
}

/// The seeds in the order in which they are tried: as the script has
/// them, but the first two exchanged.
pub open spec fn seeds_in_order(found: Seq<Seq<Option<Seq<char>>>>) -> Seq<(Seq<char>, Seq<char>)>
    recommends
        found.len() >= 2,
{
    let pairs = found.map_values(|groups: Seq<Option<Seq<char>>>| seed_pair(groups));
    pairs.update(0, pairs[1]).update(1, pairs[0])
}

/// The secret that one seed stands for, if it stands for one.
pub open spec fn candidate_of(bundle: Seq<char>, pair: (Seq<char>, Seq<char>)) -> Result<
    Option<Seq<char>>,
    BundleError,
> {
    match regex_first(info_pattern(pair.1), bundle) {
        None => Err(BundleError::Pattern),
        Some(None) => Ok(None),
        Some(Some(groups)) => match (group_of(groups, 1), group_of(groups, 2)) {
            (Some(info), Some(extras)) => Ok(crate::bundle::secret_of(pair.0, info, extras)),
            _ => Ok(None),
        },
    }
}

/// The secrets that the first `n` seeds stand for, in order.
pub open spec fn candidates_among(bundle: Seq<char>, pairs: Seq<(Seq<char>, Seq<char>)>, n: int) -> Result<
    Seq<Seq<char>>,
    BundleError,
>
    decreases n,
{
    if n <= 0 {
        Ok(Seq::empty())
    } else {
        match candidates_among(bundle, pairs, n - 1) {
            Err(fault) => Err(fault),
            Ok(secrets) => match candidate_of(bundle, pairs[n - 1]) {
                Err(fault) => Err(fault),
                Ok(Some(secret)) => Ok(secrets.push(secret)),
                Ok(None) => Ok(secrets),
            },
        }
    }
}

/// The application id and the candidate secrets that a script holds.
pub open spec fn candidates_of(bundle: Seq<char>) -> Result<(Seq<char>, Seq<Seq<char>>), BundleError> {
    match first_group_of(app_id_pattern(), bundle, BundleError::NoAppId) {
        Err(fault) => Err(fault),
        Ok(app_id) => match regex_all(seed_pattern(), bundle) {
            None => Err(BundleError::Pattern),
            Some(found) => if found.len() < 2 {
                Err(BundleError::TooFewSeeds { found: found.len() as usize })
            } else {
                match candidates_among(bundle, seeds_in_order(found), found.len() as int) {
                    Err(fault) => Err(fault),
                    Ok(secrets) => if secrets.len() == 0 {
                        Err(BundleError::NoCandidates)
                    } else {
                        Ok((app_id, secrets))
                    },
                }
            },
        },
    }
}

/// What a script gives: the application id, and the secrets to try.
#[derive(Debug)]
pub struct Candidates {
    pub app_id: String,
    pub secrets: Vec<String>,
}

fn candidate(bundle: &str, seed: &String, timezone: &String) -> (r: Result<Option<String>, BundleError>)
    ensures
        match candidate_of(bundle@, (seed@, timezone@)) {
            Ok(secret) => r is Ok && opt_chars(r->Ok_0) == secret,
            Err(fault) => r == Err::<Option<String>, BundleError>(fault),
        },
{
    let mut pattern = chars_of("name:\"\\w+/");
    push_str(&mut pattern, escape(capitalize_first(timezone.as_str()).as_str()).as_str());
    push_str(&mut pattern, "\",info:\"([\\w=]+)\",extras:\"([\\w=]+)\"");
    assert(pattern@ =~= info_pattern(timezone@));
    match first_match(string_of(&pattern).as_str(), bundle) {
        Err(_) => Err(BundleError::Pattern),
        Ok(None) => Ok(None),
        Ok(Some(groups)) => match (group(&groups, 1), group(&groups, 2)) {
            (Some(info), Some(extras)) => Ok(
                decode_secret(seed.as_str(), info.as_str(), extras.as_str()),
            ),
            _ => Ok(None),
        },
    }
}

/// Finds the application id and the candidate secrets in the script of
/// the web player.
pub fn extract_candidates(bundle: &str) -> (r: Result<Candidates, BundleError>)
    ensures
        match candidates_of(bundle@) {
            Ok((app_id, secrets)) => r is Ok && r->Ok_0.app_id@ == app_id
                && r->Ok_0.secrets@.map_values(|s: String| s@) == secrets,
            Err(fault) => r == Err::<Candidates, BundleError>(fault),
        },
{
    let app_id = match first_group(
        "production:\\{api:\\{appId:\"(\\d{9})\"",
        bundle,
        BundleError::NoAppId,
    ) {
        Ok(app_id) => app_id,
        Err(fault) => {
            return Err(fault);
        },
    };
    let found = match all_matches(
        "[a-z]\\.initialSeed\\(\"([\\w=]+)\",window\\.utimezone\\.([a-z]+)\\)",
        bundle,
    ) {
        Ok(found) => found,
        Err(_) => {
            return Err(BundleError::Pattern);
        },
    };
    if found.len() < 2 {
        return Err(BundleError::TooFewSeeds { found: found.len() });
    }
    let ghost pairs = seeds_in_order(matches_view(found));
    let mut secrets: Vec<String> = Vec::new();
    let mut i: usize = 0;
    assert(secrets@.map_values(|s: String| s@) =~= Seq::empty());
    while i < found.len()
        invariant
            2 <= found.len(),
            i <= found.len(),
            pairs == seeds_in_order(matches_view(found)),
            first_group_of(app_id_pattern(), bundle@, BundleError::NoAppId) is Ok,
            first_group_of(app_id_pattern(), bundle@, BundleError::NoAppId)->Ok_0 == app_id@,
            regex_all(seed_pattern(), bundle@) == Some(matches_view(found)),
            candidates_among(bundle@, pairs, i as int) is Ok,
            candidates_among(bundle@, pairs, i as int)->Ok_0 == secrets@.map_values(
                |s: String| s@,
            ),
        decreases found.len() - i,
    {
        let from: usize = if i == 0 {
            1
        } else if i == 1 {
            0
        } else {
            i
        };
        let groups = &found[from];
        let seed = match group(groups, 1) {
            Some(seed) => seed,
            None => String::new(),
        };
        let timezone = match group(groups, 2) {
            Some(timezone) => timezone,
            None => String::new(),
        };
        assert(pairs[i as int] == (seed@, timezone@)) by {
            assert(matches_view(found)[from as int] == groups_view(*groups));
        }
        match candidate(bundle, &seed, &timezone) {
            Err(fault) => {
                proof {
                    candidate_fault_stays(bundle@, pairs, i + 1, found.len() as int);
                }
                return Err(fault);
            },
            Ok(Some(secret)) => {
                let ghost before = secrets@;
                secrets.push(secret);
                assert(secrets@.map_values(|s: String| s@) =~= before.map_values(|s: String| s@).push(
                    secret@,
                ));
            },
            Ok(None) => {},
        }
        i += 1;
    }
    if secrets.len() == 0 {
        return Err(BundleError::NoCandidates);
    }
    Ok(Candidates { app_id, secrets })
}

proof fn candidate_fault_stays(bundle: Seq<char>, pairs: Seq<(Seq<char>, Seq<char>)>, n: int, m: int)
    requires
        0 <= n <= m,
        candidates_among(bundle, pairs, n) is Err,
    ensures
        candidates_among(bundle, pairs, m) == candidates_among(bundle, pairs, n),
    decreases m - n,
{
    if n < m {
        candidate_fault_stays(bundle, pairs, n, m - 1);
    }
}

} // verus!
