//! Unpacking a download: the audio entries of an archive, or one bare
//! track, as files to be written, in the order of their track numbers.

use std::io::Cursor;
use std::io::Read;
use vstd::prelude::*;
use zip::result::ZipError;
use zip::ZipArchive;
use crate::bandcamp::{
    entry_number, entry_stem, entry_title, extract_title_from_url, is_zip_magic,
    parse_zip_track_filename, title_in_url, zip_magic, ExtractedTrack,
};
use crate::path::{file_name_start, join, joined};
use crate::text::{
    chars_of, contains, contains_seq, decimal, push_decimal, push_str, slice_of, string_of,
};

verus! {

#[verifier::external_type_specification]
#[verifier::external_body]
#[verifier::reject_recursive_types(R)]
pub struct ExZipArchive<R>(ZipArchive<R>);

#[verifier::external_type_specification]
#[verifier::external_body]
#[verifier::reject_recursive_types(T)]
pub struct ExCursor<T>(Cursor<T>);

#[verifier::external_type_specification]
#[verifier::external_body]
pub struct ExZipError(ZipError);

/// What an archive holds, entry by entry in the order of its directory:
/// nothing for an entry that cannot be opened, and else the entry's name
/// with the bytes it unpacks to, where they can be read.
pub uninterp spec fn archive_entries(archive: ZipArchive<Cursor<Vec<u8>>>) -> Seq<
    Option<(Seq<char>, Option<Seq<u8>>)>,
>;

/// The entries of the archive that `bytes` encode, where they encode one.
pub uninterp spec fn zip_listing(bytes: Seq<u8>) -> Option<
    Seq<Option<(Seq<char>, Option<Seq<u8>>)>>,
>;

/// Whether an entry name is that of a directory: it ends with a slash or a
/// backslash.
pub open spec fn is_directory_name(name: Seq<char>) -> bool {
    name.len() > 0 && (name.last() == '/' || name.last() == '\\')
}

/// `ZipArchive::new` over a cursor on the bytes. It reads the central
/// directory and either fails or gives the archive: the archive then holds
/// the entries that the bytes encode.
#[verifier::external_body]
fn open_archive(bytes: Vec<u8>) -> (r: Result<ZipArchive<Cursor<Vec<u8>>>, ZipError>)
    ensures
        match r {
            Ok(archive) => zip_listing(bytes@) == Some(archive_entries(archive)),
            Err(_) => zip_listing(bytes@) is None,
        },
{
    ZipArchive::new(Cursor::new(bytes))
}

/// `ZipArchive::len`: the number of entries in the directory.
#[verifier::external_body]
fn entry_count(archive: &ZipArchive<Cursor<Vec<u8>>>) -> (n: usize)
    ensures
        n == archive_entries(*archive).len(),
{
    archive.len()
}

/// `ZipArchive::by_index`, then `ZipFile::name` and `ZipFile::is_dir`.
/// Opening an entry fails or gives its name as the directory has it, and
/// leaves the archive's entries as they were; an entry counts as a
/// directory exactly when its name ends with a slash or a backslash.
#[verifier::external_body]
fn entry_header(archive: &mut ZipArchive<Cursor<Vec<u8>>>, index: usize) -> (r: Result<
    (String, bool),
    ZipError,
>)
    ensures
        archive_entries(*final(archive)) == archive_entries(*old(archive)),
        match r {
            Ok((name, is_dir)) => index < archive_entries(*old(archive)).len() && archive_entries(
                *old(archive),
            )[index as int] is Some && name@ == archive_entries(*old(archive))[index as int].unwrap().0
                && is_dir == is_directory_name(name@),
            Err(_) => index >= archive_entries(*old(archive)).len() || archive_entries(
                *old(archive),
            )[index as int] is None,
        },
{
    let file = archive.by_index(index)?;
    Ok((file.name().to_string(), file.is_dir()))
}

/// `ZipArchive::by_index`, then `Read::read_to_end` on the entry. It gives
/// the bytes that the entry unpacks to, or nothing where the entry cannot
/// be opened or read, and leaves the archive's entries as they were.
#[verifier::external_body]
fn entry_data(archive: &mut ZipArchive<Cursor<Vec<u8>>>, index: usize) -> (r: Option<Vec<u8>>)
    ensures
        archive_entries(*final(archive)) == archive_entries(*old(archive)),
        match r {
            Some(data) => index < archive_entries(*old(archive)).len() && archive_entries(
                *old(archive),
            )[index as int] is Some && archive_entries(*old(archive))[index as int].unwrap().1 == Some(
                data@,
            ),
            None => index >= archive_entries(*old(archive)).len() || archive_entries(
                *old(archive),
            )[index as int] is None || archive_entries(*old(archive))[index as int].unwrap().1 is None,
        },
{
    let mut file = archive.by_index(index).ok()?;
    let mut data = Vec::new();
    file.read_to_end(&mut data).ok()?;
    Some(data)
}

/// The text of a `ZipError`, as its `Display` prints it.
#[verifier::external_body]
fn error_text(error: &ZipError) -> (r: String) {
    error.to_string()
}

/// Why a download could not be unpacked.
#[derive(Debug)]
pub enum ArchiveError {
    /// The bytes are no archive that can be read.
    Open { detail: String },
    /// The entry at this position cannot be opened.
    Entry { index: usize, detail: String },
    /// The bytes of the entry with this name cannot be read.
    Read { name: String },
}

pub enum ArchiveFault {
    Open,
    Entry { index: int },
    Read { name: Seq<char> },
}

impl View for ArchiveError {
    type V = ArchiveFault;

    open spec fn view(&self) -> ArchiveFault {
        match *self {
            ArchiveError::Open { .. } => ArchiveFault::Open,
            ArchiveError::Entry { index, .. } => ArchiveFault::Entry { index: index as int },
            ArchiveError::Read { name } => ArchiveFault::Read { name: name@ },
        }
    }
}

impl ArchiveError {
    /// The error in words.
    pub fn message(&self) -> (r: String)
        ensures
            r@ == (match *self {
                ArchiveError::Open { detail } => "Failed to open ZIP archive: "@ + detail@,
                ArchiveError::Entry { detail, .. } => detail@,
                ArchiveError::Read { name } => "Failed to read ZIP entry: "@ + name@,
            }),
    {
        let mut out: Vec<char> = Vec::new();
        match self {
            ArchiveError::Open { detail } => {
                push_str(&mut out, "Failed to open ZIP archive: ");
                push_str(&mut out, detail.as_str());
            },
            ArchiveError::Entry { index, detail } => {
                push_str(&mut out, detail.as_str());
            },
            ArchiveError::Read { name } => {
                push_str(&mut out, "Failed to read ZIP entry: ");
                push_str(&mut out, name.as_str());
            },
        }
        string_of(&out)
    }
}

/// One track of a download: what is known of it, and the bytes to write to
/// its temporary path.
#[derive(Debug)]
pub struct ExtractedFile {
    pub track: ExtractedTrack,
    pub data: Vec<u8>,
}

pub struct FileView {
    pub track_number: u8,
    pub title: Seq<char>,
    pub temp_path: Seq<char>,
    pub data: Seq<u8>,
}

impl View for ExtractedFile {
    type V = FileView;

    open spec fn view(&self) -> FileView {
        FileView {
            track_number: self.track.track_number,
            title: self.track.title@,
            temp_path: self.track.temp_path@,
            data: self.data@,
        }
    }
}

/// The views of a list of files, in order.
pub open spec fn file_views(files: Seq<ExtractedFile>) -> Seq<FileView> {
    files.map_values(|f: ExtractedFile| f@)
}

/// Whether an entry name ends in the audio suffix `.m4a`, in any case.
pub open spec fn is_audio_name(name: Seq<char>) -> bool {
    name.len() >= 4 && name[name.len() - 4] == '.' && (name[name.len() - 3] == 'm' || name[name.len()
        - 3] == 'M') && name[name.len() - 2] == '4' && (name[name.len() - 1] == 'a' || name[name.len()
        - 1] == 'A')
}

/// Whether an entry is taken out of the archive: it is no directory and
/// its name ends in the audio suffix.
pub open spec fn is_wanted(name: Seq<char>) -> bool {
    !is_directory_name(name) && is_audio_name(name)
}

/// The name of an entry without the directories in front of it.
pub open spec fn base_name(name: Seq<char>) -> Seq<char> {
    name.skip(file_name_start(name))
}

/// The temporary path for the entry at position `index`.
pub open spec fn temp_path_for(temp_dir: Seq<char>, index: nat) -> Seq<char> {
    joined(temp_dir, "bc_extract_"@ + decimal(index) + ".m4a"@)
}

/// The file that the entry `name` at position `index` gives.
pub open spec fn file_for(name: Seq<char>, index: nat, data: Seq<u8>, temp_dir: Seq<char>) -> FileView {
    FileView {
        track_number: entry_number(entry_stem(base_name(name))),
        title: entry_title(entry_stem(base_name(name))),
        temp_path: temp_path_for(temp_dir, index),
        data,
    }
}

/// Whether an entry name ends in the audio suffix, in any case.
pub fn has_audio_suffix(name: &Vec<char>) -> (r: bool)
    ensures
        r == is_audio_name(name@),
{
    let n = name.len();
    if n < 4 {
        return false;
    }
    name[n - 4] == '.' && (name[n - 3] == 'm' || name[n - 3] == 'M') && name[n - 2] == '4' && (
    name[n - 1] == 'a' || name[n - 1] == 'A')
}

/// Decides whether the archive entry `name` at position `index` is taken,
/// and if so reads its track number and title out of its base name and
/// gives it its temporary path below `temp_dir`.
pub fn place_entry(name: &str, is_dir: bool, index: usize, temp_dir: &str) -> (r: Option<
    ExtractedTrack,
>)
    ensures
        match r {
            Some(track) => !is_dir && is_audio_name(name@) && track.track_number == file_for(
                name@,
                index as nat,
                Seq::empty(),
                temp_dir@,
            ).track_number && track.title@ == file_for(
                name@,
                index as nat,
                Seq::empty(),
                temp_dir@,
            ).title && track.temp_path@ == temp_path_for(temp_dir@, index as nat),
            None => is_dir || !is_audio_name(name@),
        },
{
    let chars = chars_of(name);
    if is_dir || !has_audio_suffix(&chars) {
        return None;
    }
    let start = crate::path::segment_start(&chars);
    let base = slice_of(&chars, start, chars.len());
    assert(base@ =~= base_name(name@));
    let parsed = parse_zip_track_filename(string_of(&base).as_str());
    let mut file_name: Vec<char> = Vec::new();
    push_str(&mut file_name, "bc_extract_");
    push_decimal(&mut file_name, index as u64);
    push_str(&mut file_name, ".m4a");
    assert(file_name@ =~= "bc_extract_"@ + decimal(index as nat) + ".m4a"@);
    let temp_path = string_of(&join(&chars_of(temp_dir), &file_name));
    Some(ExtractedTrack { track_number: parsed.0, title: parsed.1, temp_path })
}

/// Where a file with the track number `number` goes into files that are
/// in order: behind the last one whose number is not greater.
pub open spec fn insert_position(sorted: Seq<FileView>, number: u8) -> int
    decreases sorted.len(),
{
    if sorted.len() == 0 {
        0
    } else if sorted.last().track_number <= number {
        sorted.len() as int
    } else {
        insert_position(sorted.drop_last(), number)
    }
}

/// The files in the order of their track numbers; files with the same
/// number keep the order in which they came.
pub open spec fn sorted_by_number(files: Seq<FileView>) -> Seq<FileView>
    decreases files.len(),
{
    if files.len() == 0 {
        Seq::empty()
    } else {
        let sorted = sorted_by_number(files.drop_last());
        sorted.insert(insert_position(sorted, files.last().track_number), files.last())
    }
}

/// Puts files in the order of their track numbers. Files with the same
/// number keep the order in which they came.
pub fn sort_by_track_number(files: Vec<ExtractedFile>) -> (sorted: Vec<ExtractedFile>)
    ensures
        file_views(sorted@) == sorted_by_number(file_views(files@)),
{
    let ghost input = files@;
    let ghost all = file_views(files@);
    let mut sorted: Vec<ExtractedFile> = Vec::new();
    let mut n: usize = 0;
    let count = files.len();
    for file in it: files
        invariant
            it.seq() == input,
            all == file_views(input),
            input.len() == count,
            n == it.index(),
            file_views(sorted@) == sorted_by_number(all.take(n as int)),
    {
        let ghost done = file_views(sorted@);
        let ghost view = file@;
        assert(all[n as int] == view);
        let mut i: usize = sorted.len();
        assert(done.take(i as int) =~= done);
        while i > 0 && sorted[i - 1].track.track_number > file.track.track_number
            invariant
                i <= sorted.len(),
                done == file_views(sorted@),
                insert_position(done, view.track_number) == insert_position(
                    done.take(i as int),
                    view.track_number,
                ),
                view.track_number == file.track.track_number,
            decreases i,
        {
            assert(done.take(i as int).drop_last() =~= done.take(i - 1));
            assert(done.take(i as int).last() == sorted@[i - 1]@);
            i -= 1;
        }
        proof {
            if i > 0 {
                assert(done.take(i as int).last() == sorted@[i - 1]@);
            }
            assert(i == insert_position(done, view.track_number));
            assert(all.take(n + 1).drop_last() =~= all.take(n as int));
        }
        sorted.insert(i, file);
        assert(file_views(sorted@) =~= done.insert(i as int, view));
        n += 1;
    }
    assert(all.take(count as int) =~= all);
    sorted
}

/// Whether files are in the order of their track numbers.
pub open spec fn is_ordered(files: Seq<FileView>) -> bool {
    forall|i: int, j: int|
        0 <= i < j < files.len() ==> files[i].track_number <= files[j].track_number
}

/// The files with the track number `number`, in the order in which they
/// stand.
pub open spec fn with_number(files: Seq<FileView>, number: u8) -> Seq<FileView>
    decreases files.len(),
{
    if files.len() == 0 {
        Seq::empty()
    } else if files.last().track_number == number {
        with_number(files.drop_last(), number).push(files.last())
    } else {
        with_number(files.drop_last(), number)
    }
}

proof fn insert_position_divides(sorted: Seq<FileView>, number: u8)
    requires
        is_ordered(sorted),
    ensures
        0 <= insert_position(sorted, number) <= sorted.len(),
        forall|i: int|
            0 <= i < insert_position(sorted, number) ==> (#[trigger] sorted[i]).track_number
                <= number,
        forall|i: int|
            insert_position(sorted, number) <= i < sorted.len() ==> (
            #[trigger] sorted[i]).track_number > number,
    decreases sorted.len(),
{
    if sorted.len() > 0 {
        if sorted.last().track_number <= number {
            assert forall|i: int| 0 <= i < sorted.len() implies (
            #[trigger] sorted[i]).track_number <= number by {
                if i < sorted.len() - 1 {
                    assert(sorted[i].track_number <= sorted[sorted.len() - 1].track_number);
                }
            }
        } else {
            let init = sorted.drop_last();
            assert(is_ordered(init)) by {
                assert forall|i: int, j: int| 0 <= i < j < init.len() implies init[i].track_number
                    <= init[j].track_number by {
                    assert(init[i] == sorted[i] && init[j] == sorted[j]);
                }
            }
            insert_position_divides(init, number);
            assert forall|i: int| insert_position(sorted, number) <= i < sorted.len() implies (
            #[trigger] sorted[i]).track_number > number by {
                if i < sorted.len() - 1 {
                    assert(init[i] == sorted[i]);
                }
            }
            assert forall|i: int| 0 <= i < insert_position(sorted, number) implies (
            #[trigger] sorted[i]).track_number <= number by {
                assert(init[i] == sorted[i]);
            }
        }
    }
}

/// Sorting keeps every file and puts the files in the order of their
/// track numbers.
pub proof fn sorted_is_ordered(files: Seq<FileView>)
    ensures
        sorted_by_number(files).len() == files.len(),
        is_ordered(sorted_by_number(files)),
    decreases files.len(),
{
    if files.len() > 0 {
        let sorted = sorted_by_number(files.drop_last());
        let f = files.last();
        sorted_is_ordered(files.drop_last());
        insert_position_divides(sorted, f.track_number);
        let p = insert_position(sorted, f.track_number);
        let out = sorted.insert(p, f);
        assert forall|i: int, j: int| 0 <= i < j < out.len() implies out[i].track_number
            <= out[j].track_number by {
            if j < p {
                assert(out[i] == sorted[i] && out[j] == sorted[j]);
            } else if j == p {
                assert(out[i] == sorted[i]);
            } else if i < p {
                assert(out[i] == sorted[i] && out[j] == sorted[j - 1]);
            } else if i == p {
                assert(out[j] == sorted[j - 1]);
            } else {
                assert(out[i] == sorted[i - 1] && out[j] == sorted[j - 1]);
            }
        }
    }
}

proof fn with_number_of_joined(a: Seq<FileView>, b: Seq<FileView>, number: u8)
    ensures
        with_number(a + b, number) == with_number(a, number) + with_number(b, number),
    decreases b.len(),
{
    if b.len() == 0 {
        assert(a + b =~= a);
        assert(with_number(a, number) + with_number(b, number) =~= with_number(a, number));
    } else {
        with_number_of_joined(a, b.drop_last(), number);
        assert((a + b).drop_last() =~= a + b.drop_last());
        assert((a + b).last() == b.last());
        assert(with_number(a + b, number) =~= with_number(a, number) + with_number(b, number));
    }
}

proof fn none_with_number(files: Seq<FileView>, number: u8)
    requires
        forall|i: int| 0 <= i < files.len() ==> (#[trigger] files[i]).track_number != number,
    ensures
        with_number(files, number).len() == 0,
    decreases files.len(),
{
    if files.len() > 0 {
        assert forall|i: int| 0 <= i < files.drop_last().len() implies (
        #[trigger] files.drop_last()[i]).track_number != number by {
            assert(files.drop_last()[i] == files[i]);
        }
        assert(files[files.len() - 1].track_number != number);
        none_with_number(files.drop_last(), number);
    }
}

/// Sorting is stable and loses nothing: the files with any one track
/// number come out as they went in, all of them and in the same order.
pub proof fn sort_is_stable(files: Seq<FileView>, number: u8)
    ensures
        with_number(sorted_by_number(files), number) == with_number(files, number),
    decreases files.len(),
{
    if files.len() > 0 {
        let sorted = sorted_by_number(files.drop_last());
        let f = files.last();
        sort_is_stable(files.drop_last(), number);
        sorted_is_ordered(files.drop_last());
        insert_position_divides(sorted, f.track_number);
        let p = insert_position(sorted, f.track_number);
        let head = sorted.take(p);
        let tail = sorted.skip(p);
        assert(sorted.insert(p, f) =~= head.push(f) + tail);
        assert(sorted =~= head + tail);
        with_number_of_joined(head.push(f), tail, number);
        with_number_of_joined(head, tail, number);
        assert(head.push(f).drop_last() =~= head);
        if f.track_number == number {
            assert forall|i: int| 0 <= i < tail.len() implies (#[trigger] tail[i]).track_number
                != number by {
                assert(tail[i] == sorted[i + p]);
            }
            none_with_number(tail, number);
            assert(with_number(head.push(f), number) + with_number(tail, number) =~= (
            with_number(head, number) + with_number(tail, number)).push(f));
        }
    }
}

/// The audio files among the first `n` entries of an archive, in the order
/// of the entries, or the first fault met on the way: an entry that cannot
/// be opened, or an audio entry whose bytes cannot be read.
pub open spec fn unpacked(
    listing: Seq<Option<(Seq<char>, Option<Seq<u8>>)>>,
    temp_dir: Seq<char>,
    n: int,
) -> Result<Seq<FileView>, ArchiveFault>
    decreases n,
{
    if n <= 0 {
        Ok(Seq::empty())
    } else {
        match unpacked(listing, temp_dir, n - 1) {
            Err(fault) => Err(fault),
            Ok(files) => match listing[n - 1] {
                None => Err(ArchiveFault::Entry { index: n - 1 }),
                Some((name, data)) => if !is_wanted(name) {
                    Ok(files)
                } else {
                    match data {
                        None => Err(ArchiveFault::Read { name }),
                        Some(bytes) => Ok(
                            files.push(file_for(name, (n - 1) as nat, bytes, temp_dir)),
                        ),
                    }
                },
            },
        }
    }
}

/// What unpacking the archive in `bytes` gives: its audio files in the
/// order of their track numbers, or the fault that stops it.
pub open spec fn extraction_of(bytes: Seq<u8>, temp_dir: Seq<char>) -> Result<
    Seq<FileView>,
    ArchiveFault,
> {
    match zip_listing(bytes) {
        None => Err(ArchiveFault::Open),
        Some(listing) => match unpacked(listing, temp_dir, listing.len() as int) {
            Ok(files) => Ok(sorted_by_number(files)),
            Err(fault) => Err(fault),
        },
    }
}

proof fn fault_stays(
    listing: Seq<Option<(Seq<char>, Option<Seq<u8>>)>>,
    temp_dir: Seq<char>,
    n: int,
    m: int,
)
    requires
        0 <= n <= m,
        unpacked(listing, temp_dir, n) is Err,
    ensures
        unpacked(listing, temp_dir, m) == unpacked(listing, temp_dir, n),
    decreases m - n,
{
    if n < m {
        fault_stays(listing, temp_dir, n, m - 1);
    }
}

/// Whether a result of unpacking is the one that the model gives.
pub open spec fn agrees(
    r: Result<Vec<ExtractedFile>, ArchiveError>,
    model: Result<Seq<FileView>, ArchiveFault>,
) -> bool {
    match model {
        Ok(files) => r is Ok && file_views(r->Ok_0@) == files,
        Err(fault) => r is Err && r->Err_0@ == fault,
    }
}

/// Unpacks the audio entries of an archive. Each is given a temporary path
/// below `temp_dir`, and the track number and title that its name holds;
/// they come in the order of their track numbers.
pub fn extract_zip(zip_bytes: Vec<u8>, temp_dir: &str) -> (r: Result<
    Vec<ExtractedFile>,
    ArchiveError,
>)
    ensures
        agrees(r, extraction_of(zip_bytes@, temp_dir@)),
{
    let mut archive = match open_archive(zip_bytes) {
        Ok(archive) => archive,
        Err(e) => {
            return Err(ArchiveError::Open { detail: error_text(&e) });
        },
    };
    let ghost listing = archive_entries(archive);
    let count = entry_count(&archive);
    let mut files: Vec<ExtractedFile> = Vec::new();
    let mut i: usize = 0;
    assert(file_views(files@) =~= Seq::empty());
    while i < count
        invariant
            i <= count == listing.len(),
            zip_listing(zip_bytes@) == Some(listing),
            archive_entries(archive) == listing,
            unpacked(listing, temp_dir@, i as int) is Ok,
            unpacked(listing, temp_dir@, i as int)->Ok_0 == file_views(files@),
        decreases count - i,
    {
        let (name, is_dir) = match entry_header(&mut archive, i) {
            Ok(header) => header,
            Err(e) => {
                proof {
                    fault_stays(listing, temp_dir@, i + 1, count as int);
                }
                return Err(ArchiveError::Entry { index: i, detail: error_text(&e) });
            },
        };
        match place_entry(name.as_str(), is_dir, i, temp_dir) {
            None => {},
            Some(track) => {
                let data = match entry_data(&mut archive, i) {
                    Some(data) => data,
                    None => {
                        proof {
                            fault_stays(listing, temp_dir@, i + 1, count as int);
                        }
                        return Err(ArchiveError::Read { name });
                    },
                };
                let ghost before = files@;
                let file = ExtractedFile { track, data };
                assert(file@ == file_for(name@, i as nat, data@, temp_dir@));
                files.push(file);
                assert(file_views(files@) =~= file_views(before).push(file@));
            },
        }
        i += 1;
    }
    Ok(sort_by_track_number(files))
}

/// The one file that a download gives which is a bare track: number 1,
/// the title that its address suggests, and all the bytes.
pub open spec fn single_file(bytes: Seq<u8>, temp_dir: Seq<char>, url: Seq<char>) -> FileView {
    FileView {
        track_number: 1,
        title: title_in_url(url),
        temp_path: joined(temp_dir, "bc_extract_single.m4a"@),
        data: bytes,
    }
}

/// Takes a download that is one bare track as it is.
pub fn extract_single_track(bytes: Vec<u8>, temp_dir: &str, download_url: &str) -> (r: Vec<
    ExtractedFile,
>)
    ensures
        file_views(r@) == seq![single_file(bytes@, temp_dir@, download_url@)],
{
    let temp_path = string_of(&join(&chars_of(temp_dir), &chars_of("bc_extract_single.m4a")));
    let title = extract_title_from_url(download_url);
    let mut r: Vec<ExtractedFile> = Vec::new();
    r.push(ExtractedFile { track: ExtractedTrack { track_number: 1, title, temp_path }, data: bytes });
    assert(file_views(r@) =~= seq![single_file(bytes@, temp_dir@, download_url@)]);
    r
}

/// Whether a download is an archive: its declared type says so, or it
/// starts as one.
pub open spec fn is_archive(bytes: Seq<u8>, content_type: Seq<char>) -> bool {
    contains_seq(content_type, "zip"@) || (bytes.len() >= 4 && bytes.subrange(0, 4) == zip_magic())
}

/// What a download gives: the audio files of an archive, or the download
/// itself as one track.
pub open spec fn download_contents(
    bytes: Seq<u8>,
    content_type: Seq<char>,
    url: Seq<char>,
    temp_dir: Seq<char>,
) -> Result<Seq<FileView>, ArchiveFault> {
    if is_archive(bytes, content_type) {
        extraction_of(bytes, temp_dir)
    } else {
        Ok(seq![single_file(bytes, temp_dir, url)])
    }
}

/// Turns a download into the track files to write: the audio entries of
/// an archive in the order of their numbers, or the download itself where
/// it is no archive.
pub fn extract(bytes: Vec<u8>, content_type: &str, download_url: &str, temp_dir: &str) -> (r:
    Result<Vec<ExtractedFile>, ArchiveError>)
    ensures
        agrees(r, download_contents(bytes@, content_type@, download_url@, temp_dir@)),
{
    if contains(&chars_of(content_type), &chars_of("zip")) || is_zip_magic(bytes.as_slice()) {
        extract_zip(bytes, temp_dir)
    } else {
        Ok(extract_single_track(bytes, temp_dir, download_url))
    }
}

} // verus!
