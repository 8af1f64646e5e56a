//! Where a track is filed: cleaning one path component, and building the
//! path of a track below a base directory.

use vstd::prelude::*;
use crate::models::{Album, AlbumView, Track, TrackView};
use crate::text::{
    chars_of, decimal, decimal_padded2, drop_whitespace, occurs_at, push_all, push_decimal,
    push_decimal_padded2, push_str, same_chars, skip_prefixes, skip_whitespace, slice_of,
    string_of, strip_prefixes, trim, trim_end, trim_start, truncate_to_bytes, truncate_utf8,
    truncated_fits, utf8_len_is_encoded_length,
};

verus! {

/// The most bytes that one path component may take.
pub const MAX_COMPONENT_BYTES: usize = 255;

/// Characters that would separate path segments or drive names: each is
/// replaced by a hyphen.
pub open spec fn is_replaced(c: char) -> bool {
    c == '/' || c == '\\' || c == ':'
}

/// Characters that file systems refuse: each is left out.
pub open spec fn is_removed(c: char) -> bool {
    c == '*' || c == '?' || c == '"' || c == '<' || c == '>' || c == '|'
}

/// `s` with every replaced character turned into a hyphen and every removed
/// character left out.
pub open spec fn without_unsafe(s: Seq<char>) -> Seq<char>
    decreases s.len(),
{
    if s.len() == 0 {
        s
    } else if is_removed(s.last()) {
        without_unsafe(s.drop_last())
    } else if is_replaced(s.last()) {
        without_unsafe(s.drop_last()).push('-')
    } else {
        without_unsafe(s.drop_last()).push(s.last())
    }
}

/// `s` with every run of spaces reduced to one space.
pub open spec fn collapse_spaces(s: Seq<char>) -> Seq<char>
    decreases s.len(),
{
    if s.len() == 0 {
        s
    } else if s.last() == ' ' && s.len() >= 2 && s[s.len() - 2] == ' ' {
        collapse_spaces(s.drop_last())
    } else {
        collapse_spaces(s.drop_last()).push(s.last())
    }
}

/// The cleaned form of one path component: unsafe characters replaced or
/// removed, white space trimmed, leading dots stripped, runs of spaces
/// collapsed, and the whole cut to 255 bytes at a character boundary.
pub open spec fn sanitized(s: Seq<char>) -> Seq<char> {
    truncate_utf8(
        collapse_spaces(strip_prefixes(trim(without_unsafe(s)), seq!['.'])),
        MAX_COMPONENT_BYTES as nat,
    )
}

fn remove_unsafe(s: &Vec<char>) -> (out: Vec<char>)
    ensures
        out@ == without_unsafe(s@),
{
    let mut out: Vec<char> = Vec::new();
    let mut i: usize = 0;
    while i < s.len()
        invariant
            i <= s.len(),
            out@ == without_unsafe(s@.take(i as int)),
        decreases s.len() - i,
    {
        let c = s[i];
        assert(s@.take(i + 1).drop_last() =~= s@.take(i as int));
        if c == '/' || c == '\\' || c == ':' {
            out.push('-');
        } else if c == '*' || c == '?' || c == '"' || c == '<' || c == '>' || c == '|' {
        } else {
            out.push(c);
        }
        i += 1;
    }
    assert(s@.take(s.len() as int) =~= s@);
    out
}

fn collapse(s: &Vec<char>, from: usize, to: usize) -> (out: Vec<char>)
    requires
        from <= to <= s.len(),
    ensures
        out@ == collapse_spaces(s@.subrange(from as int, to as int)),
{
    let mut out: Vec<char> = Vec::new();
    let mut prev_space = false;
    let mut i: usize = from;
    while i < to
        invariant
            from <= i <= to <= s.len(),
            out@ == collapse_spaces(s@.subrange(from as int, i as int)),
            prev_space == (i > from && s@[i - 1] == ' '),
        decreases to - i,
    {
        let c = s[i];
        assert(s@.subrange(from as int, i + 1).drop_last() =~= s@.subrange(
            from as int,
            i as int,
        ));
        if c == ' ' {
            if !prev_space {
                out.push(' ');
            }
            prev_space = true;
        } else {
            out.push(c);
            prev_space = false;
        }
        i += 1;
    }
    out
}

/// Cleans one path component so that it can name a directory or a file.
pub fn sanitize_component(s: &str) -> (r: String)
    ensures
        r@ == sanitized(s@),
{
    let raw = chars_of(s);
    let safe = remove_unsafe(&raw);
    let start = skip_whitespace(&safe, 0, safe.len());
    let end = drop_whitespace(&safe, start, safe.len());
    let mut dot: Vec<char> = Vec::new();
    dot.push('.');
    let body = skip_prefixes(&safe, &dot, start, end);
    let mut out = collapse(&safe, body, end);
    truncate_to_bytes(&mut out, MAX_COMPONENT_BYTES);
    proof {
        assert(safe@.subrange(0, safe@.len() as int) =~= safe@);
        assert(dot@ =~= seq!['.']);
    }
    string_of(&out)
}

/// `base` extended by the segment `segment`: an absolute segment stands
/// alone, and a separator is put between the two unless `base` is empty or
/// already ends with one.
pub open spec fn joined(base: Seq<char>, segment: Seq<char>) -> Seq<char> {
    if segment.len() > 0 && segment[0] == '/' {
        segment
    } else if base.len() == 0 || base.last() == '/' {
        base + segment
    } else {
        base + seq!['/'] + segment
    }
}

/// Extends the path `base` by one segment.
pub fn join(base: &Vec<char>, segment: &Vec<char>) -> (r: Vec<char>)
    ensures
        r@ == joined(base@, segment@),
{
    let mut r: Vec<char> = Vec::new();
    if segment.len() > 0 && segment[0] == '/' {
        push_all(&mut r, segment);
        assert(r@ =~= segment@);
    } else if base.len() == 0 || base[base.len() - 1] == '/' {
        push_all(&mut r, base);
        push_all(&mut r, segment);
        assert(r@ =~= base@ + segment@);
    } else {
        push_all(&mut r, base);
        r.push('/');
        push_all(&mut r, segment);
        assert(r@ =~= base@ + seq!['/'] + segment@);
    }
    r
}

/// Whether a track is credited to someone other than the album's artist, as
/// on a compilation.
pub open spec fn is_compilation(album: AlbumView, track: TrackView) -> bool {
    track.performer.name != album.artist.name
}

/// The directory of an album's disc: the artist's directory, the album's
/// below it, and for an album of several discs one per disc below that.
pub open spec fn track_dir(base: Seq<char>, album: AlbumView, track: TrackView) -> Seq<char> {
    let album_dir = joined(joined(base, sanitized(album.artist.name)), sanitized(album.title));
    if album.media_count > 1 {
        joined(album_dir, "Disc "@ + decimal(track.media_number as nat))
    } else {
        album_dir
    }
}

/// The file name of a track: its number in two digits, the performer where
/// the track is not by the album's artist, the title and the extension.
pub open spec fn track_file_name(album: AlbumView, track: TrackView, ext: Seq<char>) -> Seq<
    char,
> {
    let number = decimal_padded2(track.track_number as nat) + " - "@;
    if is_compilation(album, track) {
        number + sanitized(track.performer.name) + " - "@ + sanitized(track.title) + ext
    } else {
        number + sanitized(track.title) + ext
    }
}

/// The path of a track's file below `base`.
pub open spec fn track_path_of(
    base: Seq<char>,
    album: AlbumView,
    track: TrackView,
    ext: Seq<char>,
) -> Seq<char> {
    joined(track_dir(base, album, track), track_file_name(album, track, ext))
}

/// Builds the path at which a track is stored:
/// `base/artist/album[/Disc N]/NN - [performer - ]title` followed by `ext`.
pub fn track_path(base: &str, album: &Album, track: &Track, ext: &str) -> (r: String)
    ensures
        r@ == track_path_of(base@, album@, track@, ext@),
{
    let artist_dir = chars_of(sanitize_component(album.artist.name.as_str()).as_str());
    let album_dir = chars_of(sanitize_component(album.title.as_str()).as_str());
    let base_chars = chars_of(base);
    let mut path = join(&join(&base_chars, &artist_dir), &album_dir);
    if album.media_count > 1 {
        let mut disc: Vec<char> = Vec::new();
        push_str(&mut disc, "Disc ");
        push_decimal(&mut disc, track.media_number.0 as u64);
        assert(disc@ =~= "Disc "@ + decimal(track.media_number.0 as nat));
        path = join(&path, &disc);
    }
    let title = chars_of(sanitize_component(track.title.as_str()).as_str());
    let performer = chars_of(track.performer.name.as_str());
    let artist = chars_of(album.artist.name.as_str());
    let mut name: Vec<char> = Vec::new();
    push_decimal_padded2(&mut name, track.track_number.0 as u64);
    push_str(&mut name, " - ");
    if !same_chars(&performer, &artist) {
        let credited = chars_of(sanitize_component(track.performer.name.as_str()).as_str());
        push_all(&mut name, &credited);
        push_str(&mut name, " - ");
    }
    push_all(&mut name, &title);
    push_str(&mut name, ext);
    proof {
        assert(name@ =~= track_file_name(album@, track@, ext@));
    }
    let full = join(&path, &name);
    string_of(&full)
}

/// Two tracks that differ only in who performs them are filed in the same
/// directory under the same number and title; the performer's name stands in
/// the file name exactly when it is not the album artist's.
pub proof fn performer_prefix_law(
    base: Seq<char>,
    album: AlbumView,
    own: TrackView,
    guest: TrackView,
    ext: Seq<char>,
)
    requires
        own.performer.name == album.artist.name,
        guest.performer.name != album.artist.name,
        guest == (TrackView { performer: guest.performer, ..own }),
    ensures
        track_dir(base, album, guest) == track_dir(base, album, own),
        track_file_name(album, own, ext) == decimal_padded2(own.track_number as nat) + " - "@
            + sanitized(own.title) + ext,
        track_file_name(album, guest, ext) == decimal_padded2(own.track_number as nat) + " - "@
            + sanitized(guest.performer.name) + " - "@ + sanitized(own.title) + ext,
{
}

/// The path of a track depends on nothing but the base directory, the
/// album, the track and the extension: equal inputs give equal paths.
pub proof fn track_path_is_a_function(
    base: Seq<char>,
    album: AlbumView,
    track: TrackView,
    ext: Seq<char>,
    other_base: Seq<char>,
    other_album: AlbumView,
    other_track: TrackView,
    other_ext: Seq<char>,
)
    requires
        base == other_base,
        album == other_album,
        track == other_track,
        ext == other_ext,
    ensures
        track_path_of(base, album, track, ext) == track_path_of(
            other_base,
            other_album,
            other_track,
            other_ext,
        ),
{
}

/// The last position of `c` in `s`, or -1 where `s` does not hold it.
pub open spec fn last_index_of(s: Seq<char>, c: char) -> int
    decreases s.len(),
{
    if s.len() == 0 {
        -1
    } else if s.last() == c {
        s.len() - 1
    } else {
        last_index_of(s.drop_last(), c)
    }
}

/// Where the last segment of a path starts: behind its last separator.
pub open spec fn file_name_start(path: Seq<char>) -> int {
    last_index_of(path, '/') + 1
}

/// Where the extension of a path starts: at the last dot of its last
/// segment, unless that dot opens the segment; at the end where the segment
/// has no such dot.
pub open spec fn stem_end(path: Seq<char>) -> int {
    let start = file_name_start(path);
    let dot = last_index_of(path.skip(start), '.');
    if dot > 0 {
        start + dot
    } else {
        path.len() as int
    }
}

/// `path` with the extension of its last segment replaced by `ext`, which
/// is given without a dot. An empty `ext` removes the extension; a path
/// whose last segment is empty stays as it is.
pub open spec fn with_extension_of(path: Seq<char>, ext: Seq<char>) -> Seq<char> {
    if file_name_start(path) >= path.len() {
        path
    } else if ext.len() == 0 {
        path.take(stem_end(path))
    } else {
        path.take(stem_end(path)) + seq!['.'] + ext
    }
}

fn find_last(s: &Vec<char>, from: usize, c: char) -> (r: Option<usize>)
    requires
        from <= s.len(),
    ensures
        match r {
            Some(i) => from <= i < s.len() && last_index_of(s@.skip(from as int), c) == i - from,
            None => last_index_of(s@.skip(from as int), c) == -1,
        },
{
    let ghost tail = s@.skip(from as int);
    let mut i: usize = s.len();
    assert(tail.take(s.len() - from) =~= tail);
    while i > from
        invariant
            from <= i <= s.len(),
            tail == s@.skip(from as int),
            last_index_of(tail, c) == last_index_of(tail.take(i - from), c),
        decreases i,
    {
        assert(tail.take(i - from).last() == s@[i - 1]);
        if s[i - 1] == c {
            return Some(i - 1);
        }
        assert(tail.take(i - from).drop_last() =~= tail.take(i - from - 1));
        i -= 1;
    }
    assert(tail.take(0).len() == 0);
    None
}

/// Replaces the extension of the last segment of `path` by `ext`, which is
/// given without a dot.
pub fn with_extension(path: &Vec<char>, ext: &Vec<char>) -> (r: Vec<char>)
    ensures
        r@ == with_extension_of(path@, ext@),
{
    proof {
        assert(path@.skip(0) =~= path@);
    }
    let start: usize = match find_last(path, 0, '/') {
        Some(i) => i + 1,
        None => 0,
    };
    assert(start == file_name_start(path@));
    if start >= path.len() {
        return slice_of(path, 0, path.len());
    }
    let end: usize = match find_last(path, start, '.') {
        Some(i) => if i > start {
            i
        } else {
            path.len()
        },
        None => path.len(),
    };
    assert(end == stem_end(path@));
    let mut r = slice_of(path, 0, end);
    if ext.len() > 0 {
        r.push('.');
        push_all(&mut r, ext);
    }
    proof {
        assert(path@.subrange(0, end as int) =~= path@.take(end as int));
        assert(path@.subrange(0, path@.len() as int) =~= path@);
    }
    r
}

/// Finds where the last segment of a path starts.
pub fn segment_start(path: &Vec<char>) -> (start: usize)
    ensures
        start == file_name_start(path@),
        start <= path.len(),
{
    proof {
        assert(path@.skip(0) =~= path@);
    }
    match find_last(path, 0, '/') {
        Some(i) => i + 1,
        None => 0,
    }
}

/// The position found for a character lies within the sequence.
pub proof fn last_index_of_in_range(s: Seq<char>, c: char)
    ensures
        -1 <= last_index_of(s, c) < s.len(),
    decreases s.len(),
{
    if s.len() > 0 && s.last() != c {
        last_index_of_in_range(s.drop_last(), c);
    }
}

/// The extension of a path starts within the path, not before its last
/// segment.
pub proof fn stem_end_in_range(path: Seq<char>)
    ensures
        0 <= file_name_start(path) <= path.len(),
        file_name_start(path) <= stem_end(path) <= path.len(),
{
    last_index_of_in_range(path, '/');
    last_index_of_in_range(path.skip(file_name_start(path)), '.');
}

/// Whether no character of `s` is one that is replaced or removed.
pub open spec fn is_safe(s: Seq<char>) -> bool {
    forall|i: int| 0 <= i < s.len() ==> !is_replaced(#[trigger] s[i]) && !is_removed(s[i])
}

/// Whether no two spaces stand side by side in `s`.
pub open spec fn has_single_spaces(s: Seq<char>) -> bool {
    forall|i: int| 0 <= i < s.len() - 1 ==> !(#[trigger] s[i] == ' ' && s[i + 1] == ' ')
}

proof fn without_unsafe_is_safe(s: Seq<char>)
    ensures
        is_safe(without_unsafe(s)),
    decreases s.len(),
{
    if s.len() > 0 {
        without_unsafe_is_safe(s.drop_last());
    }
}

proof fn trim_start_is_a_suffix(s: Seq<char>)
    ensures
        exists|k: int| 0 <= k <= s.len() && trim_start(s) == #[trigger] s.skip(k),
    decreases s.len(),
{
    if s.len() > 0 && crate::text::is_whitespace(s[0]) {
        trim_start_is_a_suffix(s.drop_first());
        let k = choose|k: int|
            0 <= k <= s.drop_first().len() && trim_start(s.drop_first()) == #[trigger] s.drop_first().skip(
                k,
            );
        assert(s.drop_first().skip(k) =~= s.skip(k + 1));
    } else {
        assert(s.skip(0) =~= s);
    }
}

proof fn trim_end_is_a_prefix(s: Seq<char>)
    ensures
        exists|k: int| 0 <= k <= s.len() && trim_end(s) == #[trigger] s.take(k),
    decreases s.len(),
{
    if s.len() > 0 && crate::text::is_whitespace(s.last()) {
        trim_end_is_a_prefix(s.drop_last());
        let k = choose|k: int|
            0 <= k <= s.drop_last().len() && trim_end(s.drop_last()) == #[trigger] s.drop_last().take(
                k,
            );
        assert(s.drop_last().take(k) =~= s.take(k));
    } else {
        assert(s.take(s.len() as int) =~= s);
    }
}

proof fn stripped_is_a_suffix(s: Seq<char>, pat: Seq<char>)
    ensures
        exists|k: int| 0 <= k <= s.len() && strip_prefixes(s, pat) == #[trigger] s.skip(k),
        pat.len() > 0 ==> !occurs_at(strip_prefixes(s, pat), pat, 0),
    decreases s.len(),
{
    if pat.len() > 0 && occurs_at(s, pat, 0) {
        let rest = s.skip(pat.len() as int);
        stripped_is_a_suffix(rest, pat);
        let k = choose|k: int|
            0 <= k <= rest.len() && strip_prefixes(rest, pat) == #[trigger] rest.skip(k);
        assert(rest.skip(k) =~= s.skip(k + pat.len()));
    } else {
        assert(s.skip(0) =~= s);
    }
}

proof fn collapsed_keeps_order(s: Seq<char>)
    ensures
        collapse_spaces(s).len() <= s.len(),
        s.len() > 0 ==> collapse_spaces(s).len() > 0 && collapse_spaces(s)[0] == s[0]
            && collapse_spaces(s).last() == s.last(),
        has_single_spaces(collapse_spaces(s)),
        is_safe(s) ==> is_safe(collapse_spaces(s)),
    decreases s.len(),
{
    if s.len() > 0 {
        let init = s.drop_last();
        collapsed_keeps_order(init);
        if init.len() > 0 {
            assert(init.last() == s[s.len() - 2]);
            assert(init[0] == s[0]);
        }
        if is_safe(s) {
            assert forall|i: int| 0 <= i < init.len() implies !is_replaced(#[trigger] init[i])
                && !is_removed(init[i]) by {
                assert(init[i] == s[i]);
            }
        }
    }
}

/// A cleaned component can stand as one segment of a path: it holds none
/// of the characters that are replaced or removed, so no separator; it
/// does not begin with a dot; no two spaces stand side by side in it; and
/// its encoding in UTF-8 takes at most 255 bytes.
pub proof fn sanitized_is_a_component(s: Seq<char>)
    ensures
        is_safe(sanitized(s)),
        sanitized(s).len() > 0 ==> sanitized(s)[0] != '.',
        has_single_spaces(sanitized(s)),
        vstd::utf8::encode_utf8(sanitized(s)).len() <= MAX_COMPONENT_BYTES,
{
    let a = without_unsafe(s);
    let b = trim_start(a);
    let c = trim_end(b);
    let d = strip_prefixes(c, seq!['.']);
    let e = collapse_spaces(d);
    let r = sanitized(s);
    without_unsafe_is_safe(s);
    trim_start_is_a_suffix(a);
    trim_end_is_a_prefix(b);
    stripped_is_a_suffix(c, seq!['.']);
    collapsed_keeps_order(d);
    truncated_fits(e, MAX_COMPONENT_BYTES as nat);
    utf8_len_is_encoded_length(r);
    let kb = choose|k: int| 0 <= k <= a.len() && trim_start(a) == #[trigger] a.skip(k);
    let kc = choose|k: int| 0 <= k <= b.len() && trim_end(b) == #[trigger] b.take(k);
    let kd = choose|k: int| 0 <= k <= c.len() && strip_prefixes(c, seq!['.']) == #[trigger] c.skip(k);
    assert(is_safe(d)) by {
        assert forall|i: int| 0 <= i < d.len() implies !is_replaced(#[trigger] d[i]) && !is_removed(
            d[i],
        ) by {
            assert(d[i] == c[i + kd]);
            assert(c[i + kd] == b[i + kd]);
            assert(b[i + kd] == a[i + kd + kb]);
        }
    }
    assert(r.is_prefix_of(e));
    assert forall|i: int| 0 <= i < r.len() implies !is_replaced(#[trigger] r[i]) && !is_removed(
        r[i],
    ) by {
        assert(r[i] == e[i]);
    }
    assert forall|i: int| 0 <= i < r.len() - 1 implies !(#[trigger] r[i] == ' ' && r[i + 1]
        == ' ') by {
        assert(r[i] == e[i] && r[i + 1] == e[i + 1]);
    }
    if r.len() > 0 {
        assert(r[0] == e[0]);
        assert(e[0] == d[0]);
        if d[0] == '.' {
            assert(d.subrange(0, 1) =~= seq!['.']);
            assert(occurs_at(d, seq!['.'], 0));
        }
    }
}

/// The last position of a character is the one behind which the character
/// does not occur again.
pub proof fn last_index_of_is(s: Seq<char>, c: char, k: int)
    requires
        -1 <= k < s.len(),
        k >= 0 ==> s[k] == c,
        forall|i: int| k < i < s.len() ==> s[i] != c,
    ensures
        last_index_of(s, c) == k,
    decreases s.len(),
{
    if s.len() > 0 {
        if s.last() == c {
            assert(s[s.len() - 1] == c);
        } else {
            assert forall|i: int| k < i < s.drop_last().len() implies s.drop_last()[i] != c by {
                assert(s.drop_last()[i] == s[i]);
            }
            if k >= 0 {
                assert(s.drop_last()[k] == s[k]);
            }
            last_index_of_is(s.drop_last(), c, k);
        }
    }
}

/// At the last position of a character stands that character, and behind
/// it the character does not occur again.
pub proof fn last_index_of_is_last(s: Seq<char>, c: char)
    ensures
        -1 <= last_index_of(s, c) < s.len(),
        last_index_of(s, c) >= 0 ==> s[last_index_of(s, c)] == c,
        forall|i: int| last_index_of(s, c) < i < s.len() ==> s[i] != c,
    decreases s.len(),
{
    if s.len() > 0 && s.last() != c {
        last_index_of_is_last(s.drop_last(), c);
        assert forall|i: int| last_index_of(s, c) < i < s.len() implies s[i] != c by {
            if i < s.len() - 1 {
                assert(s.drop_last()[i] == s[i]);
            }
        }
        if last_index_of(s, c) >= 0 {
            assert(s.drop_last()[last_index_of(s, c)] == s[last_index_of(s, c)]);
        }
    }
}

/// Whether a path has a last segment that is not empty.
pub open spec fn has_file_name(path: Seq<char>) -> bool {
    file_name_start(path) < path.len()
}

/// What replacing the extension gives, for a path with a last segment and
/// an extension without separator: the path up to its old extension, a
/// dot and the new extension. The last segment starts where it did, and
/// the extension of the result starts at the last dot of the new
/// extension, or at the dot before it where it has none.
pub proof fn replaced_extension_shape(path: Seq<char>, ext: Seq<char>)
    requires
        has_file_name(path),
        ext.len() > 0,
        !ext.contains('/'),
    ensures
        file_name_start(path) < stem_end(path) <= path.len(),
        with_extension_of(path, ext) == path.take(stem_end(path)) + seq!['.'] + ext,
        file_name_start(with_extension_of(path, ext)) == file_name_start(path),
        has_file_name(with_extension_of(path, ext)),
        with_extension_of(path, ext).last() == ext.last(),
        stem_end(with_extension_of(path, ext)) == (if last_index_of(ext, '.') >= 0 {
            stem_end(path) + 1 + last_index_of(ext, '.')
        } else {
            stem_end(path)
        }),
{
    let f = file_name_start(path);
    let se = stem_end(path);
    let r = with_extension_of(path, ext);
    last_index_of_is_last(path, '/');
    last_index_of_is_last(path.skip(f), '.');
    last_index_of_is_last(ext, '.');
    assert(r =~= path.take(se) + seq!['.'] + ext);
    assert forall|i: int| f - 1 < i < r.len() implies r[i] != '/' by {
        if i < se {
            assert(r[i] == path[i]);
        } else if i > se {
            assert(r[i] == ext[i - se - 1]);
            assert(ext.contains(ext[i - se - 1]));
        }
    }
    if f >= 1 {
        assert(r[f - 1] == path[f - 1]);
    }
    last_index_of_is(r, '/', f - 1);
    let name = r.skip(f);
    let d = last_index_of(ext, '.');
    if d >= 0 {
        let k = (se - f) + 1 + d;
        assert(name[k] == ext[d]);
        assert forall|i: int| k < i < name.len() implies name[i] != '.' by {
            assert(name[i] == ext[i - (se - f) - 1]);
        }
        last_index_of_is(name, '.', k);
    } else {
        let k = se - f;
        assert(name[k] == '.');
        assert forall|i: int| k < i < name.len() implies name[i] != '.' by {
            assert(name[i] == ext[i - k - 1]);
        }
        last_index_of_is(name, '.', k);
    }
}

/// Replacing an extension that was put in place of another is replacing
/// the first one: a path under a new extension without dot has the same
/// stem.
pub proof fn extension_is_replaced_whole(path: Seq<char>, first: Seq<char>, second: Seq<char>)
    requires
        has_file_name(path),
        first.len() > 0,
        !first.contains('/'),
        !first.contains('.'),
    ensures
        with_extension_of(with_extension_of(path, first), second) == with_extension_of(
            path,
            second,
        ),
{
    replaced_extension_shape(path, first);
    last_index_of_is_last(first, '.');
    if last_index_of(first, '.') >= 0 {
        assert(first.contains(first[last_index_of(first, '.')]));
    }
    stem_end_in_range(path);
    let r = with_extension_of(path, first);
    let stem = path.take(stem_end(path));
    assert(r == stem + seq!['.'] + first);
    assert(stem.len() == stem_end(path));
    assert forall|i: int| 0 <= i < stem.len() implies r[i] == stem[i] by {
        assert((stem + seq!['.'])[i] == stem[i]);
    }
    assert(r.take(stem_end(path)) =~= stem);
}

/// A path under a new extension that holds a dot is another path.
pub proof fn dotted_extension_changes_the_path(path: Seq<char>, ext: Seq<char>)
    requires
        has_file_name(path),
        !ext.contains('/'),
        ext.contains('.'),
    ensures
        with_extension_of(path, ext) != path,
{
    let i = choose|i: int| 0 <= i < ext.len() && ext[i] == '.';
    assert(ext[i] == '.');
    replaced_extension_shape(path, ext);
    last_index_of_is_last(ext, '.');
}

} // verus!
