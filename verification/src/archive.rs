//! Getting the conversion tool out of the archive it is shipped in.

use crate::text::{chars_of, ends_with, ends_with_text};
use std::io::Cursor;
use std::io::Read;
use vstd::prelude::*;
use zip::result::ZipError;
use zip::ZipArchive;

verus! {

/// `zip::ZipArchive`, the reader of a zip archive. Nothing inside it is
/// visible here; `archive_entries` names what it holds.
#[verifier::external_type_specification]
#[verifier::external_body]
#[verifier::reject_recursive_types(R)]
pub struct ExZipArchive<R>(ZipArchive<R>);

/// `std::io::Cursor`, which lets bytes in memory be read like a file.
#[verifier::external_type_specification]
#[verifier::external_body]
#[verifier::reject_recursive_types(T)]
pub struct ExCursor<T>(Cursor<T>);

/// `zip::result::ZipError`, the reason why the `zip` crate gave up.
#[verifier::external_type_specification]
#[verifier::external_body]
pub struct ExZipError(ZipError);

/// What `zip::ZipArchive::new` makes of the given bytes: `None` where it
/// refuses them, and else the entries that it keeps, one for each name, in
/// the order in which it numbers them, each with its name and with its
/// content where the content can be read out.
pub uninterp spec fn zip_directory(bytes: Seq<u8>) -> Option<Seq<(Seq<char>, Option<Seq<u8>>)>>;

/// The entries that an open archive keeps, one for each name, in the order
/// in which it numbers them, each with its name and with its content where
/// the content can be read out.
pub uninterp spec fn archive_entries(archive: ZipArchive<Cursor<Vec<u8>>>) -> Seq<
    (Seq<char>, Option<Seq<u8>>),
>;

/// Calls `zip::ZipArchive::new` on the bytes. The contract claims that
/// whether the archive opens, and what it then holds, depends on the bytes
/// alone.
#[verifier::external_body]
fn open_archive(bytes: Vec<u8>) -> (r: Result<ZipArchive<Cursor<Vec<u8>>>, ZipError>)
    ensures
        r is Ok <==> zip_directory(bytes@) is Some,
        r matches Ok(archive) ==> Some(archive_entries(archive)) == zip_directory(bytes@),
{
    ZipArchive::new(Cursor::new(bytes))
}

/// Calls `zip::ZipArchive::len`, the number of entries that the archive
/// keeps.
#[verifier::external_body]
fn entry_count(archive: &ZipArchive<Cursor<Vec<u8>>>) -> (n: usize)
    ensures
        n == archive_entries(*archive).len(),
{
    archive.len()
}

/// Calls `zip::ZipArchive::name_for_index`: the name of the entry with the
/// given number, and nothing for a number beyond the last.
#[verifier::external_body]
fn entry_name(archive: &ZipArchive<Cursor<Vec<u8>>>, index: usize) -> (r: Option<String>)
    ensures
        r is Some <==> index < archive_entries(*archive).len(),
        r matches Some(name) ==> name@ == archive_entries(*archive)[index as int].0,
{
    archive.name_for_index(index).map(|name| name.to_string())
}

/// Calls `zip::ZipArchive::by_index` and reads the entry that it hands out
/// to its end, into bytes. The contract claims that the archive holds
/// afterwards what it held before, that a number beyond the last gives an
/// error, and that the content comes out exactly where
/// `archive_entries` has it.
#[verifier::external_body]
fn entry_data(archive: &mut ZipArchive<Cursor<Vec<u8>>>, index: usize) -> (r: Result<
    Vec<u8>,
    ZipError,
>)
    ensures
        archive_entries(*final(archive)) == archive_entries(*old(archive)),
        r is Ok <==> index < archive_entries(*old(archive)).len() && archive_entries(
            *old(archive),
        )[index as int].1 is Some,
        r matches Ok(data) ==> Some(data@) == archive_entries(*old(archive))[index as int].1,
{
    let mut entry = archive.by_index(index)?;
    let mut data = Vec::new();
    entry.read_to_end(&mut data)?;
    Ok(data)
}

/// The words of a `zip::result::ZipError`, as its `Display` writes them.
/// Nothing is claimed of them.
#[verifier::external_body]
fn error_text(error: &ZipError) -> (r: String) {
    format!("{}", error)
}

/// Why nothing could be taken out of an archive.
#[derive(Debug, Clone, PartialEq, Eq)]
pub enum ExtractError {
    /// The bytes are no zip archive that can be read; the reason.
    NotAnArchive(String),
    /// The entry at `index` is a copy of the tool, and its content cannot
    /// be read out; the reason.
    EntryUnreadable { index: usize, reason: String },
}

/// The entry is a copy of the conversion tool: its name ends with `ffmpeg`
/// or with `ffmpeg.exe`, in whatever directory of the archive it lies.
pub open spec fn is_ffmpeg_entry(name: Seq<char>) -> bool {
    ends_with_text(name, "ffmpeg"@) || ends_with_text(name, "ffmpeg.exe"@)
}

/// Tests whether an archive entry of this name is a copy of the conversion
/// tool.
pub fn ffmpeg_entry(name: &str) -> (b: bool)
    ensures
        b == is_ffmpeg_entry(name@),
{
    let chars = chars_of(name);
    ends_with(&chars, &chars_of("ffmpeg")) || ends_with(&chars, &chars_of("ffmpeg.exe"))
}

/// What taking the tool out of the given entries comes to. The entries are
/// gone through in order, and each copy of the tool is read out: the last
/// one read is the tool, `None` where the archive holds no copy. The first
/// copy whose content cannot be read out ends the search with its place as
/// the error.
pub open spec fn extraction(entries: Seq<(Seq<char>, Option<Seq<u8>>)>) -> Result<
    Option<Seq<u8>>,
    int,
>
    decreases entries.len(),
{
    if entries.len() == 0 {
        Ok(None)
    } else {
        match extraction(entries.drop_last()) {
            Err(index) => Err(index),
            Ok(found) => {
                let entry = entries.last();
                if is_ffmpeg_entry(entry.0) {
                    match entry.1 {
                        Some(content) => Ok(Some(content)),
                        None => Err(entries.len() - 1),
                    }
                } else {
                    Ok(found)
                }
            },
        }
    }
}

/// The bytes that may be missing, as a mathematical value.
pub open spec fn bytes_of(data: Option<Vec<u8>>) -> Option<Seq<u8>> {
    match data {
        Some(data) => Some(data@),
        None => None,
    }
}

/// Takes the conversion tool out of a zip archive held in memory. `Ok` with
/// the tool's bytes, or with `None` where the archive holds no entry that
/// is a copy of the tool; an error where the bytes are no archive or a
/// copy cannot be read out.
pub fn extract_ffmpeg(archive_bytes: Vec<u8>) -> (r: Result<Option<Vec<u8>>, ExtractError>)
    ensures
        match zip_directory(archive_bytes@) {
            None => r matches Err(ExtractError::NotAnArchive(_)),
            Some(entries) => match extraction(entries) {
                Ok(found) => r matches Ok(data) && bytes_of(data) == found,
                Err(place) => r matches Err(ExtractError::EntryUnreadable { index, .. })
                    && index == place,
            },
        },
{
    let mut archive = match open_archive(archive_bytes) {
        Ok(archive) => archive,
        Err(error) => {
            return Err(ExtractError::NotAnArchive(error_text(&error)));
        },
    };
    let ghost entries = archive_entries(archive);
    let count = entry_count(&archive);
    let mut found: Option<Vec<u8>> = None;
    let mut i: usize = 0;
    assert(entries.take(0) =~= Seq::<(Seq<char>, Option<Seq<u8>>)>::empty());
    while i < count
        invariant
            i <= count,
            count == entries.len(),
            zip_directory(archive_bytes@) == Some(entries),
            archive_entries(archive) == entries,
            extraction(entries.take(i as int)) == Ok::<Option<Seq<u8>>, int>(bytes_of(found)),
        decreases count - i,
    {
        proof {
            assert(entries.take(i + 1).drop_last() =~= entries.take(i as int));
            assert(entries.take(i + 1).last() == entries[i as int]);
        }
        let is_copy = match entry_name(&archive, i) {
            Some(name) => ffmpeg_entry(name.as_str()),
            None => false,
        };
        if is_copy {
            match entry_data(&mut archive, i) {
                Ok(data) => {
                    found = Some(data);
                },
                Err(error) => {
                    proof {
                        let upto = entries.take(i + 1);
                        assert(upto.drop_last() =~= entries.take(i as int));
                        assert(upto.last() == entries[i as int]);
                        assert(extraction(upto) == Err::<Option<Seq<u8>>, int>(i as int));
                        lemma_extraction_stops(entries, i + 1);
                    }
                    return Err(
                        ExtractError::EntryUnreadable { index: i, reason: error_text(&error) },
                    );
                },
            }
        }
        i = i + 1;
    }
    assert(entries.take(count as int) =~= entries);
    Ok(found)
}

/// Once the search has met a copy that cannot be read out, going through
/// more entries changes nothing.
pub proof fn lemma_extraction_stops(entries: Seq<(Seq<char>, Option<Seq<u8>>)>, k: int)
    requires
        0 <= k <= entries.len(),
        extraction(entries.take(k)) is Err,
    ensures
        extraction(entries) == extraction(entries.take(k)),
    decreases entries.len() - k,
{
    if k == entries.len() {
        assert(entries.take(k) =~= entries);
    } else {
        assert(entries.drop_last().take(k) =~= entries.take(k));
        lemma_extraction_stops(entries.drop_last(), k);
    }
}

} // verus!
