//! Finding and extracting one entry of a ZIP archive held in memory.

use vstd::prelude::*;
use vstd::string::StringExecFns;
use std::io::Cursor;
use std::io::Read;
use zip::ZipArchive;
use crate::error::{ErdError, Failure};
use crate::text::{ends_with, file_name, file_name_of};

verus! {

/// `zip::ZipArchive`, taken as a whole: of an archive only its entry names
/// and what reading each entry gives are spoken of.
#[verifier::external_type_specification]
#[verifier::external_body]
#[verifier::reject_recursive_types(R)]
pub struct ExZipArchive<R>(ZipArchive<R>);

/// `std::io::Cursor`, through which an archive reads the bytes that it was
/// made from.
#[verifier::external_type_specification]
#[verifier::external_body]
#[verifier::reject_recursive_types(T)]
pub struct ExCursor<T>(Cursor<T>);

/// The names of an archive's entries, in the order in which the archive
/// enumerates them.
pub uninterp spec fn archive_names(archive: ZipArchive<Cursor<Vec<u8>>>) -> Seq<Seq<char>>;

/// For every name, what asking an archive for the entry of that name and
/// reading it to its end gives: the uncompressed content, or the reason why
/// there is none (no such entry, or one that cannot be read).
pub uninterp spec fn archive_files(archive: ZipArchive<Cursor<Vec<u8>>>) -> Map<
    Seq<char>,
    Result<Seq<u8>, Seq<char>>,
>;

/// What reading `data` as a ZIP archive gives: the archive's entry names and
/// what reading each name gives, or the reason why `data` is no archive.
pub uninterp spec fn parsed_archive(data: Seq<u8>) -> Result<
    (Seq<Seq<char>>, Map<Seq<char>, Result<Seq<u8>, Seq<char>>>),
    Seq<char>,
>;

/// `ZipArchive::new` on a cursor over `data`: reads the central directory.
/// The archive holds what `parsed_archive` names for `data`; a failure is
/// handed back in the words of the error.
#[verifier::external_body]
pub(crate) fn open_archive(data: Vec<u8>) -> (r: Result<ZipArchive<Cursor<Vec<u8>>>, String>)
    ensures
        match r {
            Ok(archive) => parsed_archive(data@) == Ok::<_, Seq<char>>(
                (archive_names(archive), archive_files(archive)),
            ),
            Err(cause) => parsed_archive(data@) == Err::<
                (Seq<Seq<char>>, Map<Seq<char>, Result<Seq<u8>, Seq<char>>>),
                _,
            >(cause@),
        },
{
    match ZipArchive::new(Cursor::new(data)) {
        Ok(archive) => Ok(archive),
        Err(e) => Err(std::io::Error::from(e).to_string()),
    }
}

/// `ZipArchive::file_names`, collected: the names of the entries in the
/// archive's own order.
#[verifier::external_body]
pub(crate) fn entry_names(archive: &ZipArchive<Cursor<Vec<u8>>>) -> (names: Vec<String>)
    ensures
        names@.map_values(|n: String| n@) == archive_names(*archive),
{
    archive.file_names().map(|name| name.to_string()).collect()
}

/// `ZipArchive::by_name`, read to its end: the uncompressed content of the
/// entry called `name`, or the words of the error where there is no such
/// entry or it cannot be read. The archive holds afterwards what it held
/// before.
#[verifier::external_body]
pub(crate) fn read_entry(archive: &mut ZipArchive<Cursor<Vec<u8>>>, name: &str) -> (r: Result<
    Vec<u8>,
    String,
>)
    ensures
        archive_names(*final(archive)) == archive_names(*old(archive)),
        archive_files(*final(archive)) == archive_files(*old(archive)),
        archive_files(*old(archive)).dom().contains(name@),
        match r {
            Ok(content) => archive_files(*old(archive))[name@] == Ok::<_, Seq<char>>(content@),
            Err(cause) => archive_files(*old(archive))[name@] == Err::<Seq<u8>, _>(cause@),
        },
{
    let mut content = Vec::new();
    match archive.by_name(name) {
        Ok(mut entry) => match entry.read_to_end(&mut content) {
            Ok(_) => Ok(content),
            Err(e) => Err(e.to_string()),
        },
        Err(e) => Err(std::io::Error::from(e).to_string()),
    }
}

/// What a `FileData` holds, as plain values.
pub struct ExtractedFile {
    pub name: Seq<char>,
    pub data: Seq<u8>,
}

/// A file taken out of an archive: the name to store it under, and its
/// content.
#[derive(Debug)]
pub struct FileData {
    pub file_name: String,
    pub data: Vec<u8>,
}

impl View for FileData {
    type V = ExtractedFile;

    open spec fn view(&self) -> ExtractedFile {
        ExtractedFile { name: self.file_name@, data: self.data@ }
    }
}

/// The position of the last of `names` that ends with `pattern`.
pub open spec fn last_match(names: Seq<Seq<char>>, pattern: Seq<char>) -> Option<int>
    decreases names.len(),
{
    if names.len() == 0 {
        None
    } else if pattern.is_suffix_of(names.last()) {
        Some(names.len() - 1)
    } else {
        last_match(names.drop_last(), pattern)
    }
}

/// `last_match` finds a name that ends with the pattern and that no such
/// name follows; it finds none only where no name ends with the pattern.
pub proof fn lemma_last_match(names: Seq<Seq<char>>, pattern: Seq<char>)
    ensures
        match last_match(names, pattern) {
            Some(i) => {
                &&& 0 <= i < names.len()
                &&& pattern.is_suffix_of(names[i])
                &&& forall|j: int| i < j < names.len() ==> !pattern.is_suffix_of(#[trigger] names[j])
            },
            None => forall|j: int| 0 <= j < names.len() ==> !pattern.is_suffix_of(#[trigger] names[j]),
        },
    decreases names.len(),
{
    if names.len() > 0 && !pattern.is_suffix_of(names.last()) {
        lemma_last_match(names.drop_last(), pattern);
        let front = names.drop_last();
        assert forall|j: int| 0 <= j < front.len() implies front[j] == names[j] by {}
        match last_match(names, pattern) {
            Some(i) => {
                assert forall|j: int| i < j < names.len() implies !pattern.is_suffix_of(
                    #[trigger] names[j],
                ) by {
                    if j < front.len() {
                        assert(front[j] == names[j]);
                    }
                }
            },
            None => {
                assert forall|j: int| 0 <= j < names.len() implies !pattern.is_suffix_of(
                    #[trigger] names[j],
                ) by {
                    if j < front.len() {
                        assert(front[j] == names[j]);
                    }
                }
            },
        }
    }
}

/// The text of the names in `names`.
pub open spec fn names_view(names: Seq<String>) -> Seq<Seq<char>> {
    names.map_values(|n: String| n@)
}

/// The position of the entry to extract: of the names that end with
/// `pattern`, the last one.
pub fn select_entry(names: &Vec<String>, pattern: &str) -> (r: Option<usize>)
    ensures
        match r {
            Some(i) => last_match(names_view(names@), pattern@) == Some(i as int),
            None => last_match(names_view(names@), pattern@) is None,
        },
{
    let mut found: Option<usize> = None;
    let mut k: usize = 0;
    while k < names.len()
        invariant
            k <= names.len(),
            match found {
                Some(i) => last_match(names_view(names@).take(k as int), pattern@) == Some(i as int),
                None => last_match(names_view(names@).take(k as int), pattern@) is None,
            },
        decreases names.len() - k,
    {
        let ghost seen = names_view(names@).take(k + 1);
        assert(seen.drop_last() =~= names_view(names@).take(k as int));
        assert(seen.last() == names@[k as int]@);
        if ends_with(names[k].as_str(), pattern) {
            found = Some(k);
        }
        k += 1;
    }
    assert(names_view(names@).take(k as int) =~= names_view(names@));
    found
}

/// What extracting the entry called `name` gives, where reading it gave
/// `read`: the content under the file name of `name`, or a failure that
/// carries the cause. An entry whose name has no file name is not read.
pub open spec fn extracted(name: Seq<char>, read: Result<Seq<u8>, Seq<char>>) -> Result<
    ExtractedFile,
    Failure,
> {
    match file_name(name) {
        None => Err(
            Failure::IOError(
                "Could not get filename from path"@,
                "Failed to extract artifact from zip"@,
            ),
        ),
        Some(file_name) => match read {
            Ok(content) => Ok(ExtractedFile { name: file_name, data: content }),
            Err(cause) => Err(Failure::IOError(cause, "Failed to extract artifact from zip"@)),
        },
    }
}

/// What looking in an archive for `pattern` gives, where reading the
/// archive gave `parsed`: nothing where no entry matches, else the last
/// matching entry, extracted.
pub open spec fn extraction(
    parsed: Result<(Seq<Seq<char>>, Map<Seq<char>, Result<Seq<u8>, Seq<char>>>), Seq<char>>,
    pattern: Seq<char>,
) -> Result<Option<ExtractedFile>, Failure> {
    match parsed {
        Err(cause) => Err(Failure::IOError(cause, "Invalid zip archive"@)),
        Ok((names, files)) => match last_match(names, pattern) {
            None => Ok(None),
            Some(i) => match extracted(names[i], files[names[i]]) {
                Ok(file) => Ok(Some(file)),
                Err(e) => Err(e),
            },
        },
    }
}

/// The plain values of the result of an extraction.
pub open spec fn extraction_view(r: Result<Option<FileData>, ErdError>) -> Result<
    Option<ExtractedFile>,
    Failure,
> {
    match r {
        Ok(Some(file)) => Ok(Some(file@)),
        Ok(None) => Ok(None),
        Err(e) => Err(e@),
    }
}

/// Reads the entry called `file` out of `archive`. The file is named by the
/// file name of `file`: its last component, as [`file_name`] has it. Where
/// `file` has none, that is a failure.
pub fn extract_file(archive: &mut ZipArchive<Cursor<Vec<u8>>>, file: &str) -> (r: Result<
    FileData,
    ErdError,
>)
    ensures
        archive_names(*final(archive)) == archive_names(*old(archive)),
        archive_files(*final(archive)) == archive_files(*old(archive)),
        match r {
            Ok(data) => extracted(file@, archive_files(*old(archive))[file@]) == Ok::<_, Failure>(
                data@,
            ),
            Err(e) => extracted(file@, archive_files(*old(archive))[file@]) == Err::<
                ExtractedFile,
                _,
            >(e@),
        },
{
    let file_name = match file_name_of(file) {
        Some(file_name) => file_name,
        None => {
            return Err(
                ErdError::IOError(
                    String::from_str("Could not get filename from path"),
                    String::from_str("Failed to extract artifact from zip"),
                ),
            );
        },
    };
    match read_entry(archive, file) {
        Ok(content) => Ok(FileData { file_name, data: content }),
        Err(cause) => Err(
            ErdError::IOError(cause, String::from_str("Failed to extract artifact from zip")),
        ),
    }
}

/// Looks in the archive held in `buffer` for the entry to extract: of the
/// entries whose names end with `pattern`, the last in the archive's order.
/// Gives its content, named by the file name of the entry's name, or `None`
/// where no entry matches.
pub fn extract_artifact(buffer: Vec<u8>, pattern: &str) -> (r: Result<Option<FileData>, ErdError>)
    ensures
        extraction_view(r) == extraction(parsed_archive(buffer@), pattern@),
{
    match open_archive(buffer) {
        Err(cause) => Err(ErdError::IOError(cause, String::from_str("Invalid zip archive"))),
        Ok(archive) => {
            let mut archive = archive;
            let names = entry_names(&archive);
            match select_entry(&names, pattern) {
                None => Ok(None),
                Some(i) => {
                    proof {
                        lemma_last_match(names_view(names@), pattern@);
                    }
                    match extract_file(&mut archive, names[i].as_str()) {
                        Ok(file) => Ok(Some(file)),
                        Err(e) => Err(e),
                    }
                },
            }
        },
    }
}

} // verus!
