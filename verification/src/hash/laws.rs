//! What holds of the hash of a package whatever the package.

use vstd::prelude::*;
use vstd::seq_lib::lemma_flatten_concat;
use crate::beatmap::answers_from;
use crate::beatmap::bytes_of;
use crate::beatmap::manifest_name;
use crate::beatmap::read_of;
use crate::beatmap::SourceReply;
use crate::beatmap::SourceRequest;
use crate::hash::entry_names;
use crate::hash::session::files_read;
use crate::hash::hashed_bytes;
use crate::hash::hashed_files;
use crate::hash::hex_digits;
use crate::hash::hex_lower;
use crate::hash::last_entry;
use crate::hash::level_hash;
use crate::hash::session::outcomes;
use crate::hash::path_file_name;
use crate::hash::picked;
use crate::hash::base_names;
use crate::hash::resolution;
use crate::hash::sha1_digest;
use crate::hash::sha1_hex;
use crate::hash::session::HashSession;
use crate::hash::session::HashStep;
use crate::models::InfoDat;
use crate::song_load::LoadSongError;

verus! {

/// What a source that holds `files` gives for each of `paths`, in order.
pub open spec fn reads_from(files: Map<Seq<char>, Seq<u8>>, paths: Seq<Seq<char>>) -> Seq<
    Option<Seq<u8>>,
> {
    paths.map_values(|path: Seq<char>| read_of(files, path))
}

proof fn lemma_faithful_reads(
    files: Map<Seq<char>, Seq<u8>>,
    paths: Vec<String>,
    reads: Vec<Result<Vec<u8>, std::io::Error>>,
)
    requires
        answers_from(
            files,
            SourceRequest::ReadFiles(paths),
            Some(SourceReply::FilesRead(reads)),
        ),
    ensures
        outcomes(reads@) == reads_from(files, paths.deep_view()),
{
    assert(outcomes(reads@) =~= reads_from(files, paths.deep_view()));
}

/// What a source answers to a request for files is what is owed to the session that asked:
/// an archive, which answers from the files it holds, gives the replies that `ends_in`
/// speaks of.
pub proof fn lemma_answer_is_owed(
    session: HashSession,
    request: SourceRequest,
    files: Map<Seq<char>, Seq<u8>>,
    decode: spec_fn(Seq<u8>) -> Result<InfoDat, String>,
    reply: SourceReply,
)
    requires
        !(session is Decoding),
        session.asks(request),
        answers_from(files, request, Some(reply)),
    ensures
        owed(session, files, decode, reply),
        session.answered_by(reply),
{
    match (request, reply) {
        (SourceRequest::ReadFiles(paths), SourceReply::FilesRead(reads)) => {
            lemma_faithful_reads(files, paths, reads);
        },
        _ => {},
    }
}

/// The bytes of the manifest of a package that holds `files`: of `Info.dat`, or else of
/// `info.dat`.
pub open spec fn manifest_of(files: Map<Seq<char>, Seq<u8>>) -> Option<Seq<u8>> {
    match read_of(files, manifest_name(false)) {
        Some(bytes) => Some(bytes),
        None => read_of(files, manifest_name(true)),
    }
}

/// The hash of a package that holds `files`, whose manifest, of the bytes `info_bytes`,
/// decodes to `info`.
pub open spec fn hash_of_package(
    files: Map<Seq<char>, Seq<u8>>,
    info: InfoDat,
    info_bytes: Seq<u8>,
) -> Seq<char> {
    let names = info.beatmap_files();
    level_hash(info_bytes, files_read(names, reads_from(files, names)), names)
}

/// Whether `reply` is what is owed to `session` by a source that holds `files`, beside a
/// decoder that works as `decode` does.
pub open spec fn owed(
    session: HashSession,
    files: Map<Seq<char>, Seq<u8>>,
    decode: spec_fn(Seq<u8>) -> Result<InfoDat, String>,
    reply: SourceReply,
) -> bool {
    match session {
        HashSession::ReadingManifest { fallback } => reply matches SourceReply::FileRead(read)
            && bytes_of(read) == read_of(files, manifest_name(fallback)),
        HashSession::Decoding { info_bytes } => reply == SourceReply::ManifestDecoded(
            decode(info_bytes@),
        ),
        HashSession::ReadingFiles { info, .. } => reply matches SourceReply::FilesRead(reads)
            && outcomes(reads@) == reads_from(files, info.beatmap_files()),
    }
}

/// Whether hashing, from `session` on, can end in `last` within `steps` replies, each of
/// them what is owed by a source that holds `files` and a decoder that works as `decode`.
pub open spec fn ends_in(
    session: HashSession,
    files: Map<Seq<char>, Seq<u8>>,
    decode: spec_fn(Seq<u8>) -> Result<InfoDat, String>,
    last: HashStep,
    steps: nat,
) -> bool
    decreases steps,
{
    steps > 0 && exists|reply: SourceReply, step: HashStep|
        #![trigger session.yields(reply, step)]
        owed(session, files, decode, reply) && session.yields(reply, step) && match step {
            HashStep::Ask(next, _) => ends_in(next, files, decode, last, (steps - 1) as nat),
            _ => step == last,
        }
}

/// What hashing a package comes to: whether `last` is the end that a package has which
/// holds `files`, beside a decoder that works as `decode`. Without a manifest it fails on
/// a read; with a manifest that does not decode, on the decoder's words; else it is done,
/// with `hash_of_package`.
pub open spec fn is_end_of(
    files: Map<Seq<char>, Seq<u8>>,
    decode: spec_fn(Seq<u8>) -> Result<InfoDat, String>,
    last: HashStep,
) -> bool {
    match manifest_of(files) {
        None => last matches HashStep::Failed(LoadSongError::IoError(_)),
        Some(bytes) => match decode(bytes) {
            Ok(info) => last matches HashStep::Done(hash, manifest) && manifest == info && hash@
                == hash_of_package(files, info, bytes),
            Err(words) => last == HashStep::Failed(LoadSongError::DecodeError(words)),
        },
    }
}

proof fn lemma_end_from_files(
    session: HashSession,
    files: Map<Seq<char>, Seq<u8>>,
    decode: spec_fn(Seq<u8>) -> Result<InfoDat, String>,
    last: HashStep,
    steps: nat,
)
    requires
        session is ReadingFiles,
        ends_in(session, files, decode, last, steps),
    ensures
        session matches HashSession::ReadingFiles { info, info_bytes } && last matches HashStep::Done(
            hash,
            manifest,
        ) && manifest == info && hash@ == hash_of_package(files, info, info_bytes@),
{
}

proof fn lemma_end_from_decoding(
    session: HashSession,
    files: Map<Seq<char>, Seq<u8>>,
    decode: spec_fn(Seq<u8>) -> Result<InfoDat, String>,
    last: HashStep,
    steps: nat,
)
    requires
        session is Decoding,
        ends_in(session, files, decode, last, steps),
    ensures
        session matches HashSession::Decoding { info_bytes } && match decode(info_bytes@) {
            Ok(info) => last matches HashStep::Done(hash, manifest) && manifest == info && hash@
                == hash_of_package(files, info, info_bytes@),
            Err(words) => last == HashStep::Failed(LoadSongError::DecodeError(words)),
        },
{
    let (reply, step) = choose|reply: SourceReply, step: HashStep|
        #![trigger session.yields(reply, step)]
        owed(session, files, decode, reply) && session.yields(reply, step) && match step {
            HashStep::Ask(next, _) => ends_in(next, files, decode, last, (steps - 1) as nat),
            _ => step == last,
        };
    if let HashStep::Ask(next, _) = step {
        lemma_end_from_files(next, files, decode, last, (steps - 1) as nat);
    }
}

proof fn lemma_end_from_manifest(
    session: HashSession,
    files: Map<Seq<char>, Seq<u8>>,
    decode: spec_fn(Seq<u8>) -> Result<InfoDat, String>,
    last: HashStep,
    steps: nat,
)
    requires
        session matches HashSession::ReadingManifest { fallback } && (fallback ==> read_of(
            files,
            manifest_name(false),
        ) is None),
        ends_in(session, files, decode, last, steps),
    ensures
        is_end_of(files, decode, last),
    decreases steps,
{
    let (reply, step) = choose|reply: SourceReply, step: HashStep|
        #![trigger session.yields(reply, step)]
        owed(session, files, decode, reply) && session.yields(reply, step) && match step {
            HashStep::Ask(next, _) => ends_in(next, files, decode, last, (steps - 1) as nat),
            _ => step == last,
        };
    if let HashStep::Ask(next, _) = step {
        if next is Decoding {
            lemma_end_from_decoding(next, files, decode, last, (steps - 1) as nat);
        } else {
            lemma_end_from_manifest(next, files, decode, last, (steps - 1) as nat);
        }
    }
}

/// Hashing a package comes to what the package holds, and to nothing else: however the
/// replies are spread over the steps, a source that holds `files` leads to the end that
/// `is_end_of` says.
pub proof fn lemma_hashing_ends_as_the_package_says(
    session: HashSession,
    files: Map<Seq<char>, Seq<u8>>,
    decode: spec_fn(Seq<u8>) -> Result<InfoDat, String>,
    last: HashStep,
    steps: nat,
)
    requires
        session == (HashSession::ReadingManifest { fallback: false }),
        ends_in(session, files, decode, last, steps),
    ensures
        is_end_of(files, decode, last),
{
    lemma_end_from_manifest(session, files, decode, last, steps);
}

/// Hashing twice what has not changed gives the same hash: two runs against one source
/// end alike, and where they are done, with the same hash.
pub proof fn lemma_hash_deterministic(
    files: Map<Seq<char>, Seq<u8>>,
    decode: spec_fn(Seq<u8>) -> Result<InfoDat, String>,
    first: HashStep,
    first_steps: nat,
    second: HashStep,
    second_steps: nat,
)
    requires
        ends_in(
            HashSession::ReadingManifest { fallback: false },
            files,
            decode,
            first,
            first_steps,
        ),
        ends_in(
            HashSession::ReadingManifest { fallback: false },
            files,
            decode,
            second,
            second_steps,
        ),
    ensures
        match first {
            HashStep::Done(hash, info) => second matches HashStep::Done(again, same) && again@
                == hash@ && same == info,
            HashStep::Failed(_) => second is Failed,
            HashStep::Ask(_, _) => false,
        },
{
    let start = HashSession::ReadingManifest { fallback: false };
    lemma_hashing_ends_as_the_package_says(start, files, decode, first, first_steps);
    lemma_hashing_ends_as_the_package_says(start, files, decode, second, second_steps);
}

/// A package hashes to the same in an archive and in a directory: two sources that hold
/// the same manifest, and the same bytes for each beatmap file that the manifest lists,
/// end alike, and where they are done, with the same hash.
pub proof fn lemma_same_files_same_hash(
    archive: Map<Seq<char>, Seq<u8>>,
    directory: Map<Seq<char>, Seq<u8>>,
    decode: spec_fn(Seq<u8>) -> Result<InfoDat, String>,
    from_archive: HashStep,
    archive_steps: nat,
    from_directory: HashStep,
    directory_steps: nat,
)
    requires
        ends_in(
            HashSession::ReadingManifest { fallback: false },
            archive,
            decode,
            from_archive,
            archive_steps,
        ),
        ends_in(
            HashSession::ReadingManifest { fallback: false },
            directory,
            decode,
            from_directory,
            directory_steps,
        ),
        read_of(archive, manifest_name(false)) == read_of(directory, manifest_name(false)),
        read_of(archive, manifest_name(true)) == read_of(directory, manifest_name(true)),
        manifest_of(archive) matches Some(bytes) ==> (decode(bytes) matches Ok(info) ==> forall|
            i: int,
        |
            0 <= i < info.beatmap_files().len() ==> read_of(
                archive,
                #[trigger] info.beatmap_files()[i],
            ) == read_of(directory, info.beatmap_files()[i])),
    ensures
        match from_archive {
            HashStep::Done(hash, info) => from_directory matches HashStep::Done(other, same)
                && other@ == hash@ && same == info,
            HashStep::Failed(_) => from_directory is Failed,
            HashStep::Ask(_, _) => false,
        },
{
    let start = HashSession::ReadingManifest { fallback: false };
    lemma_hashing_ends_as_the_package_says(start, archive, decode, from_archive, archive_steps);
    lemma_hashing_ends_as_the_package_says(
        start,
        directory,
        decode,
        from_directory,
        directory_steps,
    );
    if let Some(bytes) = manifest_of(archive) {
        if let Ok(info) = decode(bytes) {
            let names = info.beatmap_files();
            assert(reads_from(archive, names) =~= reads_from(directory, names));
        }
    }
}

/// The hash of files held in memory is that of a source which gave those files: where
/// `files` are what the reads of the source came to, the hash that ends the session is
/// `level_hash` of the manifest's bytes and of `files`.
pub proof fn lemma_source_hashes_as_memory(
    session: HashSession,
    reply: SourceReply,
    step: HashStep,
    files: Seq<(Seq<char>, Seq<u8>)>,
)
    requires
        session.answered_by(reply),
        session.yields(reply, step),
        session matches HashSession::ReadingFiles { info, .. } && reply matches SourceReply::FilesRead(
            reads,
        ) && files == files_read(info.beatmap_files(), outcomes(reads@)),
    ensures
        session matches HashSession::ReadingFiles { info, info_bytes } && step matches HashStep::Done(
            hash,
            _,
        ) && hash@ == level_hash(info_bytes@, files, info.beatmap_files()),
{
}

/// The hash of a package of one beatmap. Where the manifest lists one beatmap file, the
/// hash is the digest of the manifest's bytes followed by the bytes of that file, if the
/// file is there and its name is a file name, and of the manifest's bytes alone if not.
/// The song plays no part: whether it is there, and what it holds, changes nothing.
pub proof fn lemma_one_beatmap_hash(
    files: Map<Seq<char>, Seq<u8>>,
    info: InfoDat,
    info_bytes: Seq<u8>,
    name: Seq<char>,
    other: Map<Seq<char>, Seq<u8>>,
)
    requires
        info.beatmap_files() == seq![name],
    ensures
        hash_of_package(files, info, info_bytes) == sha1_hex(
            match (path_file_name(name), read_of(files, name)) {
                (Some(_), Some(bytes)) => info_bytes + bytes,
                _ => info_bytes,
            },
        ),
        read_of(other, name) == read_of(files, name) ==> hash_of_package(other, info, info_bytes)
            == hash_of_package(files, info, info_bytes),
{
    let names = info.beatmap_files();
    let none = Seq::<Seq<char>>::empty();
    assert(names.drop_last() =~= none);
    assert(names.last() == name);
    let reads = reads_from(files, names);
    assert(reads =~= seq![read_of(files, name)]);
    assert(reads.drop_last() =~= Seq::<Option<Seq<u8>>>::empty());
    assert(files_read(names.drop_last(), reads.drop_last()) =~= Seq::<
        (Seq<char>, Seq<u8>),
    >::empty());
    let held = files_read(names, reads);
    let wanted = base_names(names);
    assert(wanted =~= seq![path_file_name(name)]);
    assert(wanted.drop_last() =~= Seq::<Option<Seq<char>>>::empty());
    let entries = entry_names(held);
    assert(resolution(entries, wanted.drop_last()) =~= Seq::<int>::empty());
    match read_of(files, name) {
        Some(bytes) => {
            assert(held =~= seq![(name, bytes)]);
            assert(entries =~= seq![path_file_name(name)]);
            assert(entries.drop_last() =~= Seq::<Option<Seq<char>>>::empty());
            match path_file_name(name) {
                Some(file_name) => {
                    assert(entries.last() == Some(file_name));
                    assert(last_entry(entries, file_name) == Some(0int));
                    assert(!wanted.drop_last().contains(Some(file_name)));
                    assert(resolution(entries, wanted) =~= seq![0int]);
                    assert(picked(held, seq![0int]) =~= seq![bytes]);
                    seq![bytes].lemma_flatten_singleton();
                    assert(hashed_bytes(info_bytes, held, names) == info_bytes + bytes);
                },
                None => {
                    assert(resolution(entries, wanted) =~= Seq::<int>::empty());
                    assert(picked(held, Seq::<int>::empty()) =~= Seq::<Seq<u8>>::empty());
                    assert(hashed_bytes(info_bytes, held, names) =~= info_bytes);
                },
            }
        },
        None => {
            assert(held =~= Seq::<(Seq<char>, Seq<u8>)>::empty());
            assert(entries =~= Seq::<Option<Seq<char>>>::empty());
            match path_file_name(name) {
                Some(file_name) => {
                    assert(last_entry(entries, file_name) is None);
                },
                None => {},
            }
            assert(resolution(entries, wanted) =~= Seq::<int>::empty());
            assert(picked(held, Seq::<int>::empty()) =~= Seq::<Seq<u8>>::empty());
            assert(hashed_bytes(info_bytes, held, names) =~= info_bytes);
        },
    }
    if read_of(other, name) == read_of(files, name) {
        assert(reads_from(other, names) =~= reads_from(files, names));
    }
}

proof fn lemma_hex_digits_differ(x: int, y: int)
    requires
        0 <= x < 16,
        0 <= y < 16,
        hex_digits()[x] == hex_digits()[y],
    ensures
        x == y,
{
}

/// Hexadecimal notation tells byte strings apart: two that are written alike are equal.
pub proof fn lemma_hex_lower_injective(one: Seq<u8>, other: Seq<u8>)
    requires
        hex_lower(one) == hex_lower(other),
    ensures
        one == other,
{
    assert(hex_lower(one).len() == 2 * one.len());
    assert(hex_lower(other).len() == 2 * other.len());
    assert(one.len() == other.len());
    assert forall|k: int| 0 <= k < one.len() implies one[k] == other[k] by {
        let a = one[k] as int;
        let b = other[k] as int;
        assert(hex_lower(one)[2 * k] == hex_digits()[a / 16]);
        assert(hex_lower(other)[2 * k] == hex_digits()[b / 16]);
        assert(hex_lower(one)[2 * k + 1] == hex_digits()[a % 16]);
        assert(hex_lower(other)[2 * k + 1] == hex_digits()[b % 16]);
        lemma_hex_digits_differ(a / 16, b / 16);
        lemma_hex_digits_differ(a % 16, b % 16);
    }
    assert(one =~= other);
}

/// The text of a digest hides nothing: two byte strings with the same hash text have the
/// same SHA-1 digest.
pub proof fn lemma_equal_text_equal_digest(one: Seq<u8>, other: Seq<u8>)
    requires
        sha1_hex(one) == sha1_hex(other),
    ensures
        sha1_digest(one) == sha1_digest(other),
{
    lemma_hex_lower_injective(sha1_digest(one), sha1_digest(other));
}

/// Whether each of `names` has a file name of its own that a file of `files` goes by.
pub open spec fn all_found_once(files: Seq<(Seq<char>, Seq<u8>)>, names: Seq<Seq<char>>) -> bool {
    &&& forall|k: int|
        0 <= k < names.len() ==> ((#[trigger] path_file_name(names[k])) matches Some(name)
            && last_entry(entry_names(files), name) is Some)
    &&& forall|k: int, l: int|
        0 <= k < l < names.len() ==> path_file_name(names[k]) != path_file_name(names[l])
}

/// The bytes of the file of `files` that is hashed for `name`.
pub open spec fn content_for(files: Seq<(Seq<char>, Seq<u8>)>, name: Seq<char>) -> Seq<u8> {
    files[last_entry(entry_names(files), path_file_name(name).unwrap()).unwrap()].1
}

/// The bytes that are hashed for each of `names`, one string for each name.
pub open spec fn contents_for(files: Seq<(Seq<char>, Seq<u8>)>, names: Seq<Seq<char>>) -> Seq<
    Seq<u8>,
> {
    names.map_values(|name: Seq<char>| content_for(files, name))
}

/// The files are hashed in the order of the list: for names that each have a file name of
/// their own, for which a file is there, the files that are hashed are those of the
/// names, one for each name and in the order of the names.
pub proof fn lemma_hashed_in_list_order(files: Seq<(Seq<char>, Seq<u8>)>, names: Seq<Seq<char>>)
    requires
        all_found_once(files, names),
    ensures
        hashed_files(files, names) == contents_for(files, names),
    decreases names.len(),
{
    let entries = entry_names(files);
    let wanted = base_names(names);
    if names.len() == 0 {
        assert(hashed_files(files, names) =~= contents_for(files, names));
    } else {
        let front = names.drop_last();
        assert(all_found_once(files, front)) by {
            assert forall|k: int| 0 <= k < front.len() implies ((#[trigger] path_file_name(
                front[k],
            )) matches Some(name) && last_entry(entry_names(files), name) is Some) by {
                assert(front[k] == names[k]);
            }
            assert forall|k: int, l: int| 0 <= k < l < front.len() implies path_file_name(front[k])
                != path_file_name(front[l]) by {
                assert(front[k] == names[k]);
                assert(front[l] == names[l]);
            }
        }
        lemma_hashed_in_list_order(files, front);
        assert(wanted.drop_last() =~= base_names(front));
        let last = names.len() - 1;
        assert(wanted.last() == path_file_name(names[last]));
        let name = path_file_name(names[last]).unwrap();
        assert(!wanted.drop_last().contains(Some(name))) by {
            if wanted.drop_last().contains(Some(name)) {
                let k = choose|k: int|
                    0 <= k < wanted.drop_last().len() && wanted.drop_last()[k] == Some(name);
                assert(path_file_name(names[k]) == path_file_name(names[last]));
            }
        }
        let at = last_entry(entries, name).unwrap();
        let earlier = resolution(entries, wanted.drop_last());
        assert(resolution(entries, wanted) == earlier.push(at));
        assert(picked(files, earlier.push(at)) =~= picked(files, earlier).push(files[at].1));
        assert(contents_for(files, names) =~= contents_for(files, front).push(
            content_for(files, names[last]),
        ));
    }
}

proof fn lemma_flatten_around<A>(parts: Seq<Seq<A>>, i: int)
    requires
        0 <= i < parts.len(),
    ensures
        parts.flatten() == parts.take(i).flatten() + parts[i] + parts.skip(i + 1).flatten(),
{
    assert(parts =~= parts.take(i) + parts.skip(i));
    lemma_flatten_concat(parts.take(i), parts.skip(i));
    assert(parts.skip(i).first() == parts[i]);
    assert(parts.skip(i).drop_first() =~= parts.skip(i + 1));
    assert(parts.skip(i).flatten() =~= parts[i] + parts.skip(i + 1).flatten());
    assert(parts.flatten() =~= parts.take(i).flatten() + parts[i] + parts.skip(i + 1).flatten());
}

/// Whether `k` is where two lists of byte strings first differ.
pub open spec fn first_difference(one: Seq<Seq<u8>>, other: Seq<Seq<u8>>, k: int) -> bool {
    &&& 0 <= k < one.len()
    &&& k < other.len()
    &&& one.take(k) == other.take(k)
    &&& one[k] != other[k]
}

/// Whether two lists of byte strings differ in length: in how many strings they hold, or,
/// where they first differ, in how long the string is.
pub open spec fn differ_in_length(one: Seq<Seq<u8>>, other: Seq<Seq<u8>>) -> bool {
    ||| one.len() != other.len()
    ||| exists|k: int| first_difference(one, other, k) && one[k].len() != other[k].len()
}

proof fn lemma_first_difference(one: Seq<Seq<u8>>, other: Seq<Seq<u8>>)
    requires
        one.len() == other.len(),
        one != other,
    ensures
        exists|k: int| first_difference(one, other, k),
    decreases one.len(),
{
    if one.len() == 0 {
        assert(one =~= other);
    } else {
        let last = one.len() - 1;
        if one.drop_last() == other.drop_last() {
            assert(one.take(last) =~= one.drop_last());
            assert(other.take(last) =~= other.drop_last());
            if one[last] == other[last] {
                assert forall|i: int| 0 <= i < one.len() implies one[i] == other[i] by {
                    if i < last {
                        assert(one[i] == one.drop_last()[i]);
                        assert(other[i] == other.drop_last()[i]);
                    }
                }
                assert(one =~= other);
            }
            assert(first_difference(one, other, last));
        } else {
            lemma_first_difference(one.drop_last(), other.drop_last());
            let k = choose|k: int| first_difference(one.drop_last(), other.drop_last(), k);
            assert(one.take(k) =~= one.drop_last().take(k));
            assert(other.take(k) =~= other.drop_last().take(k));
            assert(first_difference(one, other, k));
        }
    }
}

proof fn lemma_equal_lengths_tell_apart(one: Seq<Seq<u8>>, other: Seq<Seq<u8>>, k: int)
    requires
        first_difference(one, other, k),
        one[k].len() == other[k].len(),
    ensures
        one.flatten() != other.flatten(),
{
    lemma_flatten_around(one, k);
    lemma_flatten_around(other, k);
    let before = one.take(k).flatten().len() as int;
    let length = one[k].len() as int;
    if one.flatten() == other.flatten() {
        assert(one.flatten().subrange(before, before + length) =~= one[k]);
        assert(other.flatten().subrange(before, before + length) =~= other[k]);
    }
}

/// Order matters. When the names of the list are put in another order,
/// - the hash stays the same where, place by place, the files that are hashed hold the
///   same bytes;
/// - the hash changes where they do not, but for two cases: the files differ in length
///   and give the same bytes all the same, one after another; or SHA-1 gives one digest
///   to the two byte strings.
pub proof fn lemma_order_matters(
    prepend: Seq<u8>,
    files: Seq<(Seq<char>, Seq<u8>)>,
    names: Seq<Seq<char>>,
    reordered: Seq<Seq<char>>,
)
    ensures
        hashed_files(files, reordered) == hashed_files(files, names) ==> level_hash(
            prepend,
            files,
            reordered,
        ) == level_hash(prepend, files, names),
        level_hash(prepend, files, reordered) == level_hash(prepend, files, names) ==> {
            ||| hashed_files(files, reordered) == hashed_files(files, names)
            ||| hashed_bytes(prepend, files, reordered) == hashed_bytes(prepend, files, names)
                && differ_in_length(hashed_files(files, names), hashed_files(files, reordered))
            ||| hashed_bytes(prepend, files, reordered) != hashed_bytes(prepend, files, names)
                && sha1_digest(hashed_bytes(prepend, files, reordered)) == sha1_digest(
                hashed_bytes(prepend, files, names),
            )
        },
{
    let kept = hashed_files(files, names);
    let turned = hashed_files(files, reordered);
    let hashed = hashed_bytes(prepend, files, names);
    let changed = hashed_bytes(prepend, files, reordered);
    if level_hash(prepend, files, reordered) == level_hash(prepend, files, names) {
        lemma_equal_text_equal_digest(changed, hashed);
        if changed == hashed && turned != kept && kept.len() == turned.len() {
            assert(turned.flatten() =~= changed.subrange(
                prepend.len() as int,
                changed.len() as int,
            ));
            assert(kept.flatten() =~= hashed.subrange(prepend.len() as int, hashed.len() as int));
            lemma_first_difference(kept, turned);
            let k = choose|k: int| first_difference(kept, turned, k);
            if kept[k].len() == turned[k].len() {
                lemma_equal_lengths_tell_apart(kept, turned, k);
            }
        }
    }
}

} // verus!
