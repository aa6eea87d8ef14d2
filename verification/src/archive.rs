//! The archive that parts are staged into, and the failures of a build.

use crate::rtype::RType;
use vstd::prelude::*;
use vstd::string::*;

verus! {

/// An archive under construction: a `zip::write::ZipWriter` over a buffer in
/// memory. Its entries carry default permissions and, with the features that
/// this package asks of the archive writer, the earliest timestamp that the
/// format knows, so that equal entries give equal archives.
#[verifier::external_body]
pub struct Archive {
    writer: zip::write::ZipWriter<std::io::Cursor<Vec<u8>>>,
}

/// How the bytes of an entry are held in the archive.
#[derive(Clone, Copy, Debug, PartialEq, Eq, Structural)]
pub enum CompressionMethod {
    /// As they are, without compression.
    Stored,
}

/// What an entry is staged with.
#[derive(Clone, Copy, Debug)]
pub struct FileOptions {
    pub compression_method: CompressionMethod,
}

/// What every entry of a package is staged with: its bytes are stored as
/// they are.
pub fn options() -> (o: FileOptions)
    ensures
        o.compression_method == CompressionMethod::Stored,
{
    FileOptions { compression_method: CompressionMethod::Stored }
}

/// `zip::result::ZipError`, the failure of the archive writer, carried
/// through as it is.
#[verifier::external_type_specification]
#[verifier::external_body]
pub struct ExZipError(zip::result::ZipError);

/// `std::io::Error`, carried through as it is.
#[verifier::external_type_specification]
#[verifier::external_body]
pub struct ExIoError(std::io::Error);

/// What has been staged into an archive so far, in the order of staging: one
/// pair per entry, with its name and, for a file, the bytes written into it
/// (`None` marks a directory).
pub uninterp spec fn staged(a: Archive) -> Seq<(Seq<char>, Option<Seq<u8>>)>;

/// Whether the archive still takes entries: its writer has neither been
/// finished nor closed by a failure.
pub uninterp spec fn is_open(a: Archive) -> bool;

/// Whether every entry that has been staged into the archive is held by the
/// store method.
pub uninterp spec fn stored(a: Archive) -> bool;

/// The bytes that `zip::write::ZipWriter::finish` gives for an archive into
/// which exactly `entries` were staged, in that order, each of them by the
/// store method.
pub uninterp spec fn stored_archive(entries: Seq<(Seq<char>, Option<Seq<u8>>)>) -> Seq<u8>;

/// Whether no file among `entries` is too long for the archive: a file holds
/// at most `u32::MAX` bytes.
pub open spec fn fits(entries: Seq<(Seq<char>, Option<Seq<u8>>)>) -> bool {
    forall|i: int|
        0 <= i < entries.len() ==> ((#[trigger] entries[i]).1 matches Some(bytes) ==> bytes.len()
            <= u32::MAX)
}

/// Whether `after` has come out of `before` by staging `entries` behind what
/// was staged: the store method is kept where it was kept, and an archive
/// that was open is open still.
pub open spec fn grown_by(
    before: Archive,
    after: Archive,
    entries: Seq<(Seq<char>, Option<Seq<u8>>)>,
) -> bool {
    &&& staged(after) == staged(before) + entries
    &&& stored(after) == stored(before)
    &&& is_open(before) ==> is_open(after)
}

/// The name under which a directory is recorded: `path` itself where it
/// already ends in a separator, else `path` followed by `/`.
pub open spec fn directory_name(path: Seq<char>) -> Seq<char> {
    if path.len() > 0 && (path.last() == '/' || path.last() == '\\') {
        path
    } else {
        path.push('/')
    }
}

/// Why a build failed. A failed build leaves no archive behind.
#[derive(Debug)]
pub enum WriteError {
    /// The document lacks a part that every package must hold. Found before
    /// anything is staged.
    MissingPart(RType),
    /// Staging or finishing failed on input or output.
    Io(std::io::Error),
    /// The archive writer found its own archive invalid.
    InvalidArchive(&'static str),
    /// The archive writer does not support what was asked of it.
    UnsupportedArchive(&'static str),
    /// The archive writer missed an entry.
    FileNotFound,
}

impl WriteError {
    /// A short description of the failure.
    pub fn message(&self) -> (s: &'static str)
        ensures
            self is MissingPart ==> s@ == "a mandatory part is missing"@,
            self is Io ==> s@ == "input or output failed"@,
            self is InvalidArchive ==> s@ == "the archive is invalid"@,
            self is UnsupportedArchive ==> s@ == "the archive is not supported"@,
            self is FileNotFound ==> s@ == "an entry was not found"@,
    {
        match self {
            WriteError::MissingPart(_) => "a mandatory part is missing",
            WriteError::Io(_) => "input or output failed",
            WriteError::InvalidArchive(_) => "the archive is invalid",
            WriteError::UnsupportedArchive(_) => "the archive is not supported",
            WriteError::FileNotFound => "an entry was not found",
        }
    }
}

/// Tells the variants of `zip::result::ZipError` apart and moves each one's
/// field into the variant of the same name. The result is never
/// `MissingPart`, which the archive writer knows nothing of.
#[verifier::external_body]
pub(crate) fn archive_fault(e: zip::result::ZipError) -> (r: WriteError)
    ensures
        !(r is MissingPart),
{
    match e {
        zip::result::ZipError::Io(e) => WriteError::Io(e),
        zip::result::ZipError::InvalidArchive(m) => WriteError::InvalidArchive(m),
        zip::result::ZipError::UnsupportedArchive(m) => WriteError::UnsupportedArchive(m),
        zip::result::ZipError::FileNotFound => WriteError::FileNotFound,
    }
}

/// Calls `zip::write::ZipWriter::new` on an empty in-memory cursor: nothing is
/// staged yet, and the archive is open.
#[verifier::external_body]
pub(crate) fn archive_new() -> (a: Archive)
    ensures
        staged(a) == Seq::<(Seq<char>, Option<Seq<u8>>)>::empty(),
        is_open(a),
        stored(a),
{
    Archive { writer: zip::write::ZipWriter::new(std::io::Cursor::new(Vec::new())) }
}

/// Calls `zip::write::ZipWriter::start_file` with the method that `options`
/// names. It succeeds on an open archive, and only there; an empty file of
/// that name has then been added behind the entries staged before.
#[verifier::external_body]
pub(crate) fn archive_start_file(a: &mut Archive, name: &str, options: FileOptions) -> (r: Result<
    (),
    zip::result::ZipError,
>)
    ensures
        r is Ok <==> is_open(*old(a)),
        r is Ok ==> staged(*final(a)) == staged(*old(a)).push((name@, Some(Seq::<u8>::empty()))),
        r is Ok ==> is_open(*final(a)),
        r is Ok ==> (stored(*final(a)) <==> stored(*old(a)) && options.compression_method
            == CompressionMethod::Stored),
{
    let method = match options.compression_method {
        CompressionMethod::Stored => zip::CompressionMethod::Stored,
    };
    a.writer.start_file(name, zip::write::FileOptions::default().compression_method(method))
}

/// Calls `zip::write::ZipWriter::add_directory`, which holds every directory
/// by the store method. It succeeds on an open archive, and only there; a
/// directory has then been added behind the entries staged before, under the
/// name that `directory_name` gives.
#[verifier::external_body]
pub(crate) fn archive_add_directory(a: &mut Archive, name: &str) -> (r: Result<
    (),
    zip::result::ZipError,
>)
    ensures
        r is Ok <==> is_open(*old(a)),
        r is Ok ==> staged(*final(a)) == staged(*old(a)).push((directory_name(name@), None)),
        r is Ok ==> is_open(*final(a)),
        r is Ok ==> stored(*final(a)) == stored(*old(a)),
{
    a.writer.add_directory(name, zip::write::FileOptions::default())
}

/// Calls `std::io::Write::write_all` on the archive writer. With nothing to
/// write it succeeds and changes nothing. With bytes to write it succeeds
/// where the archive is open, the entry staged last is a file, and the file
/// stays within `u32::MAX` bytes; the bytes have then been added to the end
/// of that file.
#[verifier::external_body]
pub(crate) fn archive_write_all(a: &mut Archive, data: &[u8]) -> (r: Result<
    (),
    zip::result::ZipError,
>)
    ensures
        data@.len() == 0 ==> r is Ok && staged(*final(a)) == staged(*old(a)) && is_open(
            *final(a),
        ) == is_open(*old(a)),
        r is Ok && data@.len() > 0 ==> {
            let before = staged(*old(a));
            &&& before.len() > 0
            &&& before.last().1 is Some
            &&& staged(*final(a)) == before.drop_last().push(
                (before.last().0, Some(before.last().1->0 + data@)),
            )
            &&& is_open(*final(a))
        },
        r is Ok ==> stored(*final(a)) == stored(*old(a)),
        ({
            let before = staged(*old(a));
            &&& is_open(*old(a))
            &&& before.len() > 0
            &&& before.last().1 matches Some(bytes)
            &&& bytes.len() + data@.len() <= u32::MAX
        }) ==> r is Ok,
{
    match std::io::Write::write_all(&mut a.writer, data) {
        Ok(()) => Ok(()),
        Err(e) => Err(zip::result::ZipError::Io(e)),
    }
}

/// Calls `zip::write::ZipWriter::finish` and takes the buffer out of the
/// cursor that it returns. It succeeds on an open archive; where every entry
/// is held by the store method, the bytes are those of the archive of the
/// staged entries.
#[verifier::external_body]
pub(crate) fn archive_finish(a: Archive) -> (r: Result<Vec<u8>, zip::result::ZipError>)
    ensures
        is_open(a) ==> r is Ok,
        r matches Ok(bytes) ==> (stored(a) ==> bytes@ == stored_archive(staged(a))),
{
    let mut a = a;
    match a.writer.finish() {
        Ok(cursor) => Ok(cursor.into_inner()),
        Err(e) => Err(e),
    }
}

/// What a call of the archive writer has come to, as the build sees it:
/// what it gave where it succeeded, else its failure, which is never
/// `MissingPart`.
pub fn outcome<T>(r: Result<T, zip::result::ZipError>) -> (out: Result<T, WriteError>)
    ensures
        match r {
            Ok(value) => out == Ok::<T, WriteError>(value),
            Err(_) => out matches Err(e) && !(e is MissingPart),
        },
{
    match r {
        Ok(value) => Ok(value),
        Err(e) => Err(archive_fault(e)),
    }
}

impl Archive {
    /// An open archive with nothing staged.
    pub fn new() -> (a: Archive)
        ensures
            staged(a) == Seq::<(Seq<char>, Option<Seq<u8>>)>::empty(),
            is_open(a),
            stored(a),
    {
        archive_new()
    }

    /// Records a directory. It succeeds on an open archive, and only there.
    pub fn add_directory(&mut self, path: &str) -> (r: Result<(), WriteError>)
        ensures
            r is Ok <==> is_open(*old(self)),
            r is Ok ==> grown_by(*old(self), *final(self), seq![(directory_name(path@), None)]),
            r matches Err(e) ==> !(e is MissingPart),
    {
        let ghost before = staged(*self);
        let r = outcome(archive_add_directory(self, path));
        proof {
            if r is Ok {
                assert(before.push((directory_name(path@), None)) =~= before + seq![
                    (directory_name(path@), None),
                ]);
            }
        }
        r
    }

    /// Stages one file that holds `text` in UTF-8, by the store method. It
    /// succeeds where the archive is open and the text stays within
    /// `u32::MAX` bytes.
    pub fn add_file(&mut self, path: &str, text: &str) -> (r: Result<(), WriteError>)
        ensures
            r is Ok ==> grown_by(
                *old(self),
                *final(self),
                seq![(path@, Some(text.spec_bytes()))],
            ),
            is_open(*old(self)) && text.spec_bytes().len() <= u32::MAX ==> r is Ok,
            r matches Err(e) ==> !(e is MissingPart),
    {
        let ghost before = staged(*self);
        outcome(archive_start_file(self, path, options()))?;
        let ghost opened = staged(*self);
        proof {
            let entry: (Seq<char>, Option<Seq<u8>>) = (path@, Some(Seq::<u8>::empty()));
            assert(opened == before.push(entry));
            assert(opened.last() == entry);
        }
        outcome(archive_write_all(self, text.as_bytes()))?;
        proof {
            assert(opened.drop_last() =~= before);
            assert(Seq::<u8>::empty() + text.spec_bytes() =~= text.spec_bytes());
            if text.spec_bytes().len() == 0 {
                assert(text.spec_bytes() =~= Seq::<u8>::empty());
            }
            assert(staged(*self) =~= before + seq![(path@, Some(text.spec_bytes()))]);
        }
        Ok(())
    }

    /// Closes the archive and hands out its bytes. It succeeds on an open
    /// archive.
    pub fn finish(self) -> (r: Result<Vec<u8>, WriteError>)
        ensures
            is_open(self) ==> r is Ok,
            r matches Ok(bytes) ==> (stored(self) ==> bytes@ == stored_archive(staged(self))),
            r matches Err(e) ==> !(e is MissingPart),
    {
        outcome(archive_finish(self))
    }
}

} // verus!
