//! Where a package lies: an archive held in memory, or a directory, and what is asked of
//! either.

use vstd::prelude::*;
use std::io::Cursor;
use std::io::Read;
use zip::ZipArchive;
use crate::models::InfoDat;

verus! {

/// `std::io::Cursor` of std, as a value that is carried and not looked into.
#[verifier::external_type_specification]
#[verifier::external_body]
#[verifier::reject_recursive_types(T)]
pub struct ExCursor<T>(Cursor<T>);

/// `ZipArchive` of the `zip` crate, as a value that is carried and not looked into.
#[verifier::external_type_specification]
#[verifier::external_body]
#[verifier::reject_recursive_types(R)]
pub struct ExZipArchive<R>(ZipArchive<R>);

/// The files that can be read out of an archive of the `zip` crate, by the name of the entry.
/// An entry that cannot be read (it is damaged, or packed in a way that is not supported)
/// is not among them.
pub uninterp spec fn archive_files(archive: ZipArchive<Cursor<Vec<u8>>>) -> Map<
    Seq<char>,
    Seq<u8>,
>;

/// The files of the archive that `bytes` hold, as the `zip` crate reads them, or `None`
/// where the crate takes the bytes for no archive.
pub uninterp spec fn zip_files(bytes: Seq<u8>) -> Option<Map<Seq<char>, Seq<u8>>>;

/// `ZipArchive::new` of the `zip` crate over bytes held in memory: whether the bytes open
/// as an archive, and what the archive then holds, rest on the bytes alone.
#[verifier::external_body]
fn zip_open(bytes: Vec<u8>) -> (opened: Result<ZipArchive<Cursor<Vec<u8>>>, std::io::Error>)
    ensures
        match opened {
            Ok(archive) => zip_files(bytes@) == Some(archive_files(archive)),
            Err(_) => zip_files(bytes@) is None,
        },
{
    ZipArchive::new(Cursor::new(bytes)).map_err(std::io::Error::from)
}

/// `ZipArchive::by_name` of the `zip` crate, and the entry read to its end: the bytes of
/// the entry of that name, or a failure where the archive has no entry of that name that
/// can be read. An entry that is not found, or cannot be opened, fails as `NotFound`. The
/// archive holds afterwards what it held before.
#[verifier::external_body]
fn zip_read(archive: &mut ZipArchive<Cursor<Vec<u8>>>, name: &str) -> (read: Result<
    Vec<u8>,
    std::io::Error,
>)
    ensures
        archive_files(*final(archive)) == archive_files(*old(archive)),
        match read {
            Ok(bytes) => archive_files(*old(archive)).contains_key(name@) && bytes@
                == archive_files(*old(archive))[name@],
            Err(_) => !archive_files(*old(archive)).contains_key(name@),
        },
{
    let mut file = match archive.by_name(name) {
        Ok(file) => file,
        Err(error) => return Err(std::io::Error::new(std::io::ErrorKind::NotFound, error)),
    };
    let mut buffer = Vec::new();
    file.read_to_end(&mut buffer)?;
    Ok(buffer)
}

/// What a package source is asked to do.
pub enum SourceRequest {
    /// Read the file at this path, relative to the package.
    ReadFile(String),
    /// Read the file at each of these paths: one outcome for each, in the same order.
    ReadFiles(Vec<String>),
    /// Decode these bytes as a manifest.
    DecodeManifest(Vec<u8>),
}

/// What came of a request.
pub enum SourceReply {
    /// The outcome of `ReadFile`.
    FileRead(Result<Vec<u8>, std::io::Error>),
    /// The outcomes of `ReadFiles`.
    FilesRead(Vec<Result<Vec<u8>, std::io::Error>>),
    /// The outcome of `DecodeManifest`: the manifest, or why the bytes are none.
    ManifestDecoded(Result<InfoDat, String>),
}

/// The name under which a manifest is looked for: first `Info.dat`, then `info.dat`.
pub open spec fn manifest_name(fallback: bool) -> Seq<char> {
    if fallback {
        "info.dat"@
    } else {
        "Info.dat"@
    }
}

/// The name under which a manifest is looked for, first or second.
pub fn info_dat_name(fallback: bool) -> (name: String)
    ensures
        name@ == manifest_name(fallback),
{
    if fallback {
        String::from_str("info.dat")
    } else {
        String::from_str("Info.dat")
    }
}

/// What reading `path` out of `files` gives: the bytes where the file is there.
pub open spec fn read_of(files: Map<Seq<char>, Seq<u8>>, path: Seq<char>) -> Option<Seq<u8>> {
    if files.contains_key(path) {
        Some(files[path])
    } else {
        None
    }
}

/// What a read gave, failures taken as one: the bytes where it went well.
pub open spec fn bytes_of(read: Result<Vec<u8>, std::io::Error>) -> Option<Seq<u8>> {
    match read {
        Ok(bytes) => Some(bytes@),
        Err(_) => None,
    }
}

/// Whether `reply` is what a source that holds `files` answers to `request`: what it
/// holds for each path asked, and nothing to a request to decode.
pub open spec fn answers_from(
    files: Map<Seq<char>, Seq<u8>>,
    request: SourceRequest,
    reply: Option<SourceReply>,
) -> bool {
    match request {
        SourceRequest::ReadFile(path) => reply matches Some(SourceReply::FileRead(read))
            && bytes_of(read) == read_of(files, path@),
        SourceRequest::ReadFiles(paths) => reply matches Some(SourceReply::FilesRead(reads))
            && reads.len() == paths.len() && forall|i: int|
            0 <= i < paths.len() ==> bytes_of(#[trigger] reads[i]) == read_of(files, paths[i]@),
        SourceRequest::DecodeManifest(_) => reply is None,
    }
}

/// A package that is one archive, held in memory.
pub struct Archive {
    zip: ZipArchive<Cursor<Vec<u8>>>,
}

impl Archive {
    /// The files of the archive that can be read, by path.
    pub closed spec fn files(&self) -> Map<Seq<char>, Seq<u8>> {
        archive_files(self.zip)
    }

    /// Opens the archive that `bytes` hold. Fails where they hold none.
    pub fn open(bytes: Vec<u8>) -> (opened: Result<Archive, std::io::Error>)
        ensures
            match opened {
                Ok(archive) => zip_files(bytes@) == Some(archive.files()),
                Err(_) => zip_files(bytes@) is None,
            },
    {
        match zip_open(bytes) {
            Ok(zip) => Ok(Archive { zip }),
            Err(error) => Err(error),
        }
    }

    /// The bytes of the file at `file_path`, or a failure where the archive has no such
    /// file that can be read.
    pub fn get_file_bytes(&mut self, file_path: &str) -> (read: Result<Vec<u8>, std::io::Error>)
        ensures
            final(self).files() == old(self).files(),
            bytes_of(read) == read_of(old(self).files(), file_path@),
    {
        zip_read(&mut self.zip, file_path)
    }

    /// The bytes of the manifest: of `Info.dat`, or else of `info.dat`. Fails where the
    /// archive has neither.
    pub fn get_info_dat_bytes(&mut self) -> (read: Result<Vec<u8>, std::io::Error>)
        ensures
            final(self).files() == old(self).files(),
            bytes_of(read) == (match read_of(old(self).files(), manifest_name(false)) {
                Some(bytes) => Some(bytes),
                None => read_of(old(self).files(), manifest_name(true)),
            }),
    {
        let first = info_dat_name(false);
        match self.get_file_bytes(first.as_str()) {
            Ok(bytes) => Ok(bytes),
            Err(_) => {
                let second = info_dat_name(true);
                self.get_file_bytes(second.as_str())
            },
        }
    }

    /// Reads each of `paths` in turn: one outcome for each, in the same order.
    pub fn get_files_bytes(&mut self, paths: &[String]) -> (reads: Vec<
        Result<Vec<u8>, std::io::Error>,
    >)
        ensures
            final(self).files() == old(self).files(),
            reads.len() == paths.len(),
            forall|i: int|
                0 <= i < paths.len() ==> bytes_of(#[trigger] reads[i]) == read_of(
                    old(self).files(),
                    paths[i]@,
                ),
    {
        let mut reads: Vec<Result<Vec<u8>, std::io::Error>> = Vec::new();
        let mut i: usize = 0;
        while i < paths.len()
            invariant
                i <= paths.len(),
                self.files() == old(self).files(),
                reads.len() == i,
                forall|j: int|
                    0 <= j < i ==> bytes_of(#[trigger] reads[j]) == read_of(
                        old(self).files(),
                        paths[j]@,
                    ),
            decreases paths.len() - i,
        {
            let read = self.get_file_bytes(paths[i].as_str());
            reads.push(read);
            i = i + 1;
        }
        reads
    }

    /// Answers a request that asks for files. A request to decode is not for the archive
    /// and has no answer here.
    pub fn answer(&mut self, request: &SourceRequest) -> (reply: Option<SourceReply>)
        ensures
            final(self).files() == old(self).files(),
            answers_from(old(self).files(), *request, reply),
    {
        match request {
            SourceRequest::ReadFile(path) => Some(
                SourceReply::FileRead(self.get_file_bytes(path.as_str())),
            ),
            SourceRequest::ReadFiles(paths) => Some(
                SourceReply::FilesRead(self.get_files_bytes(paths.as_slice())),
            ),
            SourceRequest::DecodeManifest(_) => None,
        }
    }
}

/// `std::io::Error::new` of std: an error of the kind `NotFound` that says `words`. Such
/// an error is carried and not looked into, so nothing is said of it.
#[verifier::external_body]
pub(crate) fn not_found(words: &str) -> (error: std::io::Error) {
    std::io::Error::new(std::io::ErrorKind::NotFound, words.to_string())
}

/// A package, wherever it lies: one archive, or a directory of files.
pub enum Beatmap {
    /// An archive, read into memory and opened.
    Zip(Archive),
    /// A directory, by its path. Its files are read by whoever asked for the package.
    Directory(String),
}

impl Beatmap {
    /// The files of the package that can be read, by path, where the package is an archive.
    pub open spec fn files(&self) -> Option<Map<Seq<char>, Seq<u8>>> {
        match *self {
            Beatmap::Zip(archive) => Some(archive.files()),
            Beatmap::Directory(_) => None,
        }
    }

    /// The package at `path`, from what was found there: whether anything lies at the
    /// path, and, where the path names a file, the bytes of that file.
    ///
    /// A file is opened as an archive; anything else that exists is taken for a directory.
    /// Fails where nothing lies at the path, and where the file holds no archive.
    pub fn from_path(path: String, exists: bool, file: Option<Vec<u8>>) -> (opened: Result<
        Beatmap,
        std::io::Error,
    >)
        ensures
            !exists ==> opened is Err,
            exists ==> match file {
                Some(bytes) => match zip_files(bytes@) {
                    Some(files) => opened matches Ok(Beatmap::Zip(archive)) && archive.files()
                        == files,
                    None => opened is Err,
                },
                None => opened == Ok::<Beatmap, std::io::Error>(Beatmap::Directory(path)),
            },
    {
        if !exists {
            return Err(not_found("Path does not exist"));
        }
        match file {
            Some(bytes) => match Archive::open(bytes) {
                Ok(archive) => Ok(Beatmap::Zip(archive)),
                Err(error) => Err(error),
            },
            None => Ok(Beatmap::Directory(path)),
        }
    }

    /// Answers a request for files where the package is an archive. A directory has no
    /// answer here, nor has a request to decode: those are for the caller.
    pub fn answer(&mut self, request: &SourceRequest) -> (reply: Option<SourceReply>)
        ensures
            final(self).files() == old(self).files(),
            *old(self) is Directory ==> *final(self) == *old(self),
            match old(self).files() {
                Some(files) => answers_from(files, *request, reply),
                None => reply is None,
            },
    {
        match self {
            Beatmap::Zip(archive) => archive.answer(request),
            Beatmap::Directory(_) => None,
        }
    }
}

} // verus!
