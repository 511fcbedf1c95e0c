//! The hashing of a package, step by step.

use vstd::prelude::*;
use crate::beatmap::bytes_of;
use crate::beatmap::info_dat_name;
use crate::beatmap::manifest_name;
use crate::beatmap::SourceReply;
use crate::beatmap::SourceRequest;
use crate::hash::beatmap_files_from_info_dat;
use crate::hash::clone_bytes;
use crate::hash::compute_level_hash;
use crate::hash::is_digest_text;
use crate::hash::level_hash;
use crate::models::InfoDat;
use crate::song_load::LoadSongError;

verus! {

/// The files that were read, out of those asked for: each path whose read went well, with
/// the bytes that came, in the order asked.
pub open spec fn files_read(names: Seq<Seq<char>>, reads: Seq<Option<Seq<u8>>>) -> Seq<
    (Seq<char>, Seq<u8>),
>
    decreases names.len(),
{
    if names.len() == 0 || reads.len() != names.len() {
        Seq::empty()
    } else {
        let earlier = files_read(names.drop_last(), reads.drop_last());
        match reads.last() {
            Some(bytes) => earlier.push((names.last(), bytes)),
            None => earlier,
        }
    }
}

/// What each read gave, failures taken as one.
pub open spec fn outcomes(reads: Seq<Result<Vec<u8>, std::io::Error>>) -> Seq<Option<Seq<u8>>> {
    reads.map_values(|read: Result<Vec<u8>, std::io::Error>| bytes_of(read))
}

/// Pairs each path with the bytes read for it, and leaves out the paths whose read failed.
fn collect_files(names: &Vec<String>, reads: Vec<Result<Vec<u8>, std::io::Error>>) -> (files:
    Vec<(String, Vec<u8>)>)
    requires
        reads.len() == names.len(),
    ensures
        files.deep_view() == files_read(names.deep_view(), outcomes(reads@)),
{
    let mut files: Vec<(String, Vec<u8>)> = Vec::new();
    let ghost asked = names.deep_view();
    let ghost given = outcomes(reads@);
    proof {
        assert(files.deep_view() =~= files_read(asked.take(0), given.take(0)));
    }
    let mut k: usize = 0;
    for read in it: reads
        invariant
            k == it.index(),
            asked == names.deep_view(),
            given == outcomes(reads@),
            reads.len() == names.len(),
            files.deep_view() == files_read(
                asked.take(it.index() as int),
                given.take(it.index() as int),
            ),
    {
        let ghost i = it.index() as int;
        proof {
            assert(asked.take(i + 1).drop_last() =~= asked.take(i));
            assert(given.take(i + 1).drop_last() =~= given.take(i));
        }
        match read {
            Ok(bytes) => {
                let ghost before = files.deep_view();
                let name = names[k].clone();
                assert(bytes.deep_view() =~= bytes@);
                assert(name@ == asked[i]);
                files.push((name, bytes));
                assert(files@.last().deep_view() == (asked[i], bytes@));
                assert(files.deep_view() =~= before.push((asked[i], bytes@)));
            },
            Err(_) => {},
        }
        k = k + 1;
    }
    proof {
        assert(asked.take(names.len() as int) =~= asked);
        assert(given.take(names.len() as int) =~= given);
    }
    files
}

/// The hashing of one package, between two requests to its source.
///
/// The source is whatever holds the package: an archive or a directory. Hashing asks it
/// for the manifest, has the manifest decoded, asks for the beatmap files that the
/// manifest lists, and hashes what came. Each value of this type is one point on that way.
pub enum HashSession {
    /// The manifest was asked for, under its first name or, `fallback` set, its second.
    ReadingManifest { fallback: bool },
    /// The manifest's bytes were sent to be decoded.
    Decoding { info_bytes: Vec<u8> },
    /// The beatmap files that the manifest lists were asked for.
    ReadingFiles { info: InfoDat, info_bytes: Vec<u8> },
}

/// Where the hashing of a package stands after a reply.
pub enum HashStep {
    /// The source is asked for more; its reply goes to the session given.
    Ask(HashSession, SourceRequest),
    /// The hash, and the manifest that it was made from.
    Done(String, InfoDat),
    /// The package cannot be hashed.
    Failed(LoadSongError),
}

impl HashSession {
    /// Whether `request` is what the session waits on.
    pub open spec fn asks(self, request: SourceRequest) -> bool {
        match self {
            HashSession::ReadingManifest { fallback } => request matches SourceRequest::ReadFile(
                name,
            ) && name@ == manifest_name(fallback),
            HashSession::Decoding { info_bytes } => request matches SourceRequest::DecodeManifest(
                sent,
            ) && sent@ == info_bytes@,
            HashSession::ReadingFiles { info, .. } => request matches SourceRequest::ReadFiles(
                names,
            ) && names.deep_view() == info.beatmap_files(),
        }
    }

    /// Whether `reply` answers what the session waits on.
    pub open spec fn answered_by(self, reply: SourceReply) -> bool {
        match self {
            HashSession::ReadingManifest { .. } => reply is FileRead,
            HashSession::Decoding { .. } => reply is ManifestDecoded,
            HashSession::ReadingFiles { info, .. } => reply matches SourceReply::FilesRead(reads)
                && reads.len() == info.beatmap_files().len(),
        }
    }

    /// What follows a reply that answers the session.
    ///
    /// - The manifest's bytes are sent to be decoded. Where the first name gave none, the
    ///   second is asked for; where the second gave none either, hashing fails with the
    ///   failure of that read.
    /// - The manifest decoded, its beatmap files are asked for; not decoded, hashing
    ///   fails with the decoder's words.
    /// - The files read, the hash is that of the manifest's bytes and of the files that
    ///   came; a file that did not come is left out.
    pub open spec fn yields(self, reply: SourceReply, step: HashStep) -> bool
        recommends
            self.answered_by(reply),
    {
        match (self, reply) {
            (HashSession::ReadingManifest { fallback }, SourceReply::FileRead(Ok(bytes))) => {
                &&& step matches HashStep::Ask(next, request)
                &&& next matches HashSession::Decoding { info_bytes }
                &&& info_bytes@ == bytes@
                &&& next.asks(request)
            },
            (HashSession::ReadingManifest { fallback }, SourceReply::FileRead(Err(error))) => {
                if fallback {
                    step == HashStep::Failed(LoadSongError::IoError(error))
                } else {
                    &&& step matches HashStep::Ask(next, request)
                    &&& next == (HashSession::ReadingManifest { fallback: true })
                    &&& next.asks(request)
                }
            },
            (HashSession::Decoding { info_bytes }, SourceReply::ManifestDecoded(Ok(decoded))) => {
                &&& step matches HashStep::Ask(next, request)
                &&& next matches HashSession::ReadingFiles { info, info_bytes: kept }
                &&& info == decoded
                &&& kept@ == info_bytes@
                &&& next.asks(request)
            },
            (HashSession::Decoding { .. }, SourceReply::ManifestDecoded(Err(words))) => {
                step == HashStep::Failed(LoadSongError::DecodeError(words))
            },
            (HashSession::ReadingFiles { info, info_bytes }, SourceReply::FilesRead(reads)) => {
                &&& step matches HashStep::Done(hash, manifest)
                &&& manifest == info
                &&& hash@ == level_hash(
                    info_bytes@,
                    files_read(info.beatmap_files(), outcomes(reads@)),
                    info.beatmap_files(),
                )
                &&& is_digest_text(hash@)
            },
            _ => false,
        }
    }

    /// The request that the session waits on.
    pub fn request(&self) -> (request: SourceRequest)
        ensures
            self.asks(request),
    {
        match self {
            HashSession::ReadingManifest { fallback } => SourceRequest::ReadFile(
                info_dat_name(*fallback),
            ),
            HashSession::Decoding { info_bytes } => SourceRequest::DecodeManifest(
                clone_bytes(info_bytes),
            ),
            HashSession::ReadingFiles { info, .. } => SourceRequest::ReadFiles(
                beatmap_files_from_info_dat(info),
            ),
        }
    }

    /// Begins to hash a package: its manifest is asked for.
    pub fn start() -> (step: HashStep)
        ensures
            step matches HashStep::Ask(session, request) && session == (
            HashSession::ReadingManifest { fallback: false }) && session.asks(request),
    {
        let session = HashSession::ReadingManifest { fallback: false };
        let request = session.request();
        HashStep::Ask(session, request)
    }

    /// Takes the reply of the source to what was asked, and says what follows. A reply
    /// that does not answer what was asked changes nothing: the same is asked again.
    pub fn advance(self, reply: SourceReply) -> (step: HashStep)
        ensures
            self.answered_by(reply) ==> self.yields(reply, step),
            !self.answered_by(reply) ==> (step matches HashStep::Ask(next, request) && next == self
                && self.asks(request)),
    {
        match (self, reply) {
            (HashSession::ReadingManifest { fallback }, SourceReply::FileRead(read)) => {
                match read {
                    Ok(bytes) => {
                        let next = HashSession::Decoding { info_bytes: bytes };
                        let request = next.request();
                        HashStep::Ask(next, request)
                    },
                    Err(error) => {
                        if fallback {
                            HashStep::Failed(LoadSongError::IoError(error))
                        } else {
                            let next = HashSession::ReadingManifest { fallback: true };
                            let request = next.request();
                            HashStep::Ask(next, request)
                        }
                    },
                }
            },
            (HashSession::Decoding { info_bytes }, SourceReply::ManifestDecoded(decoded)) => {
                match decoded {
                    Ok(info) => {
                        let next = HashSession::ReadingFiles { info, info_bytes };
                        let request = next.request();
                        HashStep::Ask(next, request)
                    },
                    Err(words) => HashStep::Failed(LoadSongError::DecodeError(words)),
                }
            },
            (HashSession::ReadingFiles { info, info_bytes }, SourceReply::FilesRead(reads)) => {
                let names = beatmap_files_from_info_dat(&info);
                if reads.len() == names.len() {
                    let files = collect_files(&names, reads);
                    let listed = names.as_slice();
                    let held = files.as_slice();
                    assert(listed.deep_view() =~= names.deep_view());
                    assert(held.deep_view() =~= files.deep_view());
                    let hash = compute_level_hash(info_bytes.as_slice(), held, listed);
                    HashStep::Done(hash, info)
                } else {
                    let next = HashSession::ReadingFiles { info, info_bytes };
                    let request = next.request();
                    HashStep::Ask(next, request)
                }
            },
            (session, _) => {
                let request = session.request();
                HashStep::Ask(session, request)
            },
        }
    }
}

} // verus!
