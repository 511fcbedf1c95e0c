//! The hash of a package: which files are hashed, in which order, and how the digest is
//! written.

pub mod laws;
pub mod session;

pub use crate::hash::session::HashSession;
pub use crate::hash::session::HashStep;

use vstd::prelude::*;
use vstd::hash_map::StringHashMap;
use std::path::Path;
use sha1::Digest;
use sha1::Sha1;
use crate::beatmap::info_dat_name;
use crate::beatmap::manifest_name;
use crate::beatmap::not_found;
use crate::models::DifficultyBeatmapSet;
use crate::models::InfoDat;
use crate::models::set_file_names;

verus! {

/// The SHA-1 digest of a byte string, as the `sha1` crate computes it.
pub uninterp spec fn sha1_digest(data: Seq<u8>) -> Seq<u8>;

/// `Sha1::digest` of the `sha1` crate: the SHA-1 digest of `data`, which is 20 bytes long.
#[verifier::external_body]
fn sha1_of(data: &[u8]) -> (digest: Vec<u8>)
    ensures
        digest@ == sha1_digest(data@),
        digest@.len() == 20,
{
    Sha1::digest(data).to_vec()
}

/// The sixteen digits of lower-case hexadecimal notation.
pub open spec fn hex_digits() -> Seq<char> {
    seq!['0', '1', '2', '3', '4', '5', '6', '7', '8', '9', 'a', 'b', 'c', 'd', 'e', 'f']
}

/// Lower-case hexadecimal notation of `bytes`: two digits a byte, the high half first.
pub open spec fn hex_lower(bytes: Seq<u8>) -> Seq<char> {
    Seq::new(
        2 * bytes.len(),
        |i: int|
            if i % 2 == 0 {
                hex_digits()[bytes[i / 2] as int / 16]
            } else {
                hex_digits()[bytes[i / 2] as int % 16]
            },
    )
}

/// The digit for one half byte, as a string of one character.
fn hex_digit(half: u8) -> (digit: &'static str)
    requires
        half < 16,
    ensures
        digit@ == seq![hex_digits()[half as int]],
{
    proof {
        reveal_strlit("0");
        reveal_strlit("1");
        reveal_strlit("2");
        reveal_strlit("3");
        reveal_strlit("4");
        reveal_strlit("5");
        reveal_strlit("6");
        reveal_strlit("7");
        reveal_strlit("8");
        reveal_strlit("9");
        reveal_strlit("a");
        reveal_strlit("b");
        reveal_strlit("c");
        reveal_strlit("d");
        reveal_strlit("e");
        reveal_strlit("f");
    }
    let digit = match half {
        0 => "0",
        1 => "1",
        2 => "2",
        3 => "3",
        4 => "4",
        5 => "5",
        6 => "6",
        7 => "7",
        8 => "8",
        9 => "9",
        10 => "a",
        11 => "b",
        12 => "c",
        13 => "d",
        14 => "e",
        _ => "f",
    };
    assert(digit@ =~= seq![hex_digits()[half as int]]);
    digit
}

/// Writes `bytes` in lower-case hexadecimal notation.
pub fn to_hex(bytes: &[u8]) -> (text: String)
    ensures
        text@ == hex_lower(bytes@),
{
    let mut text = String::new();
    let mut i: usize = 0;
    while i < bytes.len()
        invariant
            i <= bytes.len(),
            text@ =~= hex_lower(bytes@.take(i as int)),
        decreases bytes.len() - i,
    {
        let byte = bytes[i];
        let ghost before = text@;
        text.append(hex_digit(byte / 16));
        text.append(hex_digit(byte % 16));
        assert(text@ =~= before + seq![hex_digits()[byte as int / 16]] + seq![
            hex_digits()[byte as int % 16],
        ]);
        assert(text@ =~= hex_lower(bytes@.take(i + 1)));
        i = i + 1;
    }
    assert(bytes@.take(i as int) =~= bytes@);
    text
}

/// The file name of a path, its last component, as `std::path::Path::file_name` gives it
/// on the platform that the library is built for.
pub uninterp spec fn path_file_name(path: Seq<char>) -> Option<Seq<char>>;

/// `Path::file_name` of std, on a path given as text: the file name of the path, or `None`
/// where the path has none.
#[verifier::external_body]
fn file_name(path: &str) -> (name: Option<String>)
    ensures
        name.deep_view() == path_file_name(path@),
{
    let name = Path::new(path).file_name()?;
    Some(name.to_string_lossy().into_owned())
}

/// The text of a digest: SHA-1 of `data` in lower-case hexadecimal notation.
pub open spec fn sha1_hex(data: Seq<u8>) -> Seq<char> {
    hex_lower(sha1_digest(data))
}

/// Whether `text` is written as a digest is: forty digits of lower-case hexadecimal notation.
pub open spec fn is_digest_text(text: Seq<char>) -> bool {
    &&& text.len() == 40
    &&& forall|i: int| 0 <= i < text.len() ==> hex_digits().contains(#[trigger] text[i])
}

proof fn lemma_hex_of_twenty_bytes(bytes: Seq<u8>)
    requires
        bytes.len() == 20,
    ensures
        is_digest_text(hex_lower(bytes)),
{
    let text = hex_lower(bytes);
    assert forall|i: int| 0 <= i < text.len() implies hex_digits().contains(#[trigger] text[i]) by {
        let byte = bytes[i / 2] as int;
        if i % 2 == 0 {
            assert(text[i] == hex_digits()[byte / 16]);
        } else {
            assert(text[i] == hex_digits()[byte % 16]);
        }
    }
}

/// The contents of `files`, one after another.
pub open spec fn joined_contents(files: Seq<(Seq<char>, Seq<u8>)>) -> Seq<u8> {
    files.map_values(|f: (Seq<char>, Seq<u8>)| f.1).flatten()
}

/// The contents of the files at the positions `order`, one byte string for each position.
pub open spec fn picked(files: Seq<(Seq<char>, Seq<u8>)>, order: Seq<int>) -> Seq<Seq<u8>> {
    order.map_values(|k: int| files[k].1)
}

/// The contents of the files at the positions `order`, one after another.
pub open spec fn picked_contents(files: Seq<(Seq<char>, Seq<u8>)>, order: Seq<int>) -> Seq<u8> {
    picked(files, order).flatten()
}

/// The position of the last entry that goes by `name`, if one does.
pub open spec fn last_entry(entries: Seq<Option<Seq<char>>>, name: Seq<char>) -> Option<int>
    decreases entries.len(),
{
    if entries.len() == 0 {
        None
    } else if entries.last() == Some(name) {
        Some(entries.len() - 1)
    } else {
        last_entry(entries.drop_last(), name)
    }
}

/// Which entries are taken for the names `wanted`, in the order of `wanted`.
///
/// A wanted name takes the last entry that goes by it. A name that no entry goes by
/// takes nothing, nor does one that stood earlier in `wanted`, nor a missing name.
pub open spec fn resolution(
    entries: Seq<Option<Seq<char>>>,
    wanted: Seq<Option<Seq<char>>>,
) -> Seq<int>
    decreases wanted.len(),
{
    if wanted.len() == 0 {
        Seq::empty()
    } else {
        let earlier = resolution(entries, wanted.drop_last());
        match wanted.last() {
            Some(name) => match last_entry(entries, name) {
                Some(k) => if wanted.drop_last().contains(Some(name)) {
                    earlier
                } else {
                    earlier.push(k)
                },
                None => earlier,
            },
            None => earlier,
        }
    }
}

/// The positions in `order`, as mathematical integers.
pub open spec fn positions(order: Seq<usize>) -> Seq<int> {
    order.map_values(|k: usize| k as int)
}

proof fn lemma_last_entry_in_range(entries: Seq<Option<Seq<char>>>, name: Seq<char>)
    ensures
        last_entry(entries, name) matches Some(k) ==> 0 <= k < entries.len() && entries[k] == Some(
            name,
        ),
    decreases entries.len(),
{
    if entries.len() > 0 && entries.last() != Some(name) {
        lemma_last_entry_in_range(entries.drop_last(), name);
    }
}

/// Resolves the names `wanted` against the entry names `entries`: for each wanted name
/// in turn, the position of the last entry that goes by it, each name at most once.
/// A name that is missing, or that no entry goes by, is passed over.
pub fn resolve_by_basename(entries: &[Option<String>], wanted: &[Option<String>]) -> (order: Vec<
    usize,
>)
    ensures
        positions(order@) == resolution(entries.deep_view(), wanted.deep_view()),
        forall|i: int| 0 <= i < order.len() ==> order[i] < entries.len(),
{
    let ghost all = entries.deep_view();
    let ghost asked = wanted.deep_view();
    let mut lookup: StringHashMap<usize> = StringHashMap::new();
    let mut k: usize = 0;
    while k < entries.len()
        invariant
            k <= entries.len(),
            all == entries.deep_view(),
            forall|name: Seq<char>| #[trigger]
                lookup@.contains_key(name) <==> last_entry(all.take(k as int), name) is Some,
            forall|name: Seq<char>| #[trigger]
                lookup@.contains_key(name) ==> last_entry(all.take(k as int), name) == Some(
                    lookup@[name] as int,
                ),
        decreases entries.len() - k,
    {
        proof {
            assert(all.take(k + 1).drop_last() =~= all.take(k as int));
            assert(all.take(k + 1).last() == all[k as int]);
        }
        match &entries[k] {
            Some(name) => {
                lookup.insert(name.clone(), k);
            },
            None => {},
        }
        k = k + 1;
    }
    proof {
        assert(all.take(k as int) =~= all);
    }
    let mut order: Vec<usize> = Vec::new();
    let mut i: usize = 0;
    proof {
        assert(positions(order@) =~= resolution(all, asked.take(0)));
    }
    while i < wanted.len()
        invariant
            i <= wanted.len(),
            all == entries.deep_view(),
            asked == wanted.deep_view(),
            positions(order@) == resolution(all, asked.take(i as int)),
            forall|j: int| 0 <= j < order.len() ==> order[j] < entries.len(),
            forall|name: Seq<char>| #[trigger]
                lookup@.contains_key(name) <==> (last_entry(all, name) is Some && !asked.take(
                    i as int,
                ).contains(Some(name))),
            forall|name: Seq<char>| #[trigger]
                lookup@.contains_key(name) ==> last_entry(all, name) == Some(lookup@[name] as int),
        decreases wanted.len() - i,
    {
        let ghost done = asked.take(i as int);
        let ghost next = asked.take(i + 1);
        proof {
            assert(next.drop_last() =~= done);
            assert(next.last() == asked[i as int]);
            assert forall|name: Seq<char>| next.contains(Some(name)) <==> (done.contains(Some(name))
                || asked[i as int] == Some(name)) by {
                if next.contains(Some(name)) {
                    let j = choose|j: int| 0 <= j < next.len() && next[j] == Some(name);
                    if j < i {
                        assert(done[j] == Some(name));
                    }
                }
                if done.contains(Some(name)) {
                    let j = choose|j: int| 0 <= j < done.len() && done[j] == Some(name);
                    assert(next[j] == Some(name));
                }
                if asked[i as int] == Some(name) {
                    assert(next[i as int] == Some(name));
                }
            }
        }
        match &wanted[i] {
            Some(name) => {
                let found = match lookup.get(name.as_str()) {
                    Some(at) => Some(*at),
                    None => None,
                };
                match found {
                    Some(at) => {
                        proof {
                            lemma_last_entry_in_range(all, name@);
                        }
                        let ghost before = positions(order@);
                        order.push(at);
                        lookup.remove(name.as_str());
                        assert(positions(order@) =~= before.push(at as int));
                    },
                    None => {},
                }
            },
            None => {},
        }
        i = i + 1;
    }
    proof {
        assert(asked.take(i as int) =~= asked);
    }
    order
}

proof fn lemma_picked_push(files: Seq<(Seq<char>, Seq<u8>)>, order: Seq<int>, k: int)
    ensures
        picked_contents(files, order.push(k)) == picked_contents(files, order) + files[k].1,
{
    assert(picked(files, order.push(k)) =~= picked(files, order).push(files[k].1));
    picked(files, order).lemma_flatten_push(files[k].1);
}

/// The digest text of `bytes`.
fn digest_text(bytes: &[u8]) -> (text: String)
    ensures
        text@ == sha1_hex(bytes@),
        is_digest_text(text@),
{
    let digest = sha1_of(bytes);
    proof {
        lemma_hex_of_twenty_bytes(digest@);
    }
    to_hex(digest.as_slice())
}

/// The digest text of `prepend` followed by the contents of the files at `order`.
fn digest_picked(prepend: &[u8], files: &[(String, Vec<u8>)], order: &Vec<usize>) -> (text: String)
    requires
        forall|i: int| 0 <= i < order.len() ==> order[i] < files.len(),
    ensures
        text@ == sha1_hex(prepend@ + picked_contents(files.deep_view(), positions(order@))),
        is_digest_text(text@),
{
    let ghost held = files.deep_view();
    let mut hashed: Vec<u8> = Vec::new();
    hashed.extend_from_slice(prepend);
    let mut i: usize = 0;
    proof {
        assert(positions(order@).take(0) =~= Seq::<int>::empty());
        assert(picked_contents(held, positions(order@).take(0)) =~= Seq::<u8>::empty());
    }
    while i < order.len()
        invariant
            i <= order.len(),
            held == files.deep_view(),
            forall|j: int| 0 <= j < order.len() ==> order[j] < files.len(),
            hashed@ =~= prepend@ + picked_contents(held, positions(order@).take(i as int)),
        decreases order.len() - i,
    {
        let at = order[i];
        hashed.extend_from_slice(files[at].1.as_slice());
        proof {
            let so_far = positions(order@).take(i as int);
            assert(positions(order@).take(i + 1) =~= so_far.push(at as int));
            lemma_picked_push(held, so_far, at as int);
            assert(held[at as int].1 == files[at as int].1@);
        }
        i = i + 1;
    }
    proof {
        assert(positions(order@).take(i as int) =~= positions(order@));
    }
    digest_text(hashed.as_slice())
}

/// The SHA-1 digest, as text, of `prepend_bytes` followed by the contents of `files` in the
/// order given. The paths play no part.
pub fn create_sha1_from_path_bytes(prepend_bytes: &[u8], files: &[(String, Vec<u8>)]) -> (digest:
    Result<String, std::io::Error>)
    ensures
        digest matches Ok(text) && text@ == sha1_hex(
            prepend_bytes@ + joined_contents(files.deep_view()),
        ) && is_digest_text(text@),
{
    let ghost held = files.deep_view();
    let mut hashed: Vec<u8> = Vec::new();
    hashed.extend_from_slice(prepend_bytes);
    let mut i: usize = 0;
    proof {
        assert(joined_contents(held.take(0)) =~= Seq::<u8>::empty());
    }
    while i < files.len()
        invariant
            i <= files.len(),
            held == files.deep_view(),
            hashed@ =~= prepend_bytes@ + joined_contents(held.take(i as int)),
        decreases files.len() - i,
    {
        hashed.extend_from_slice(files[i].1.as_slice());
        proof {
            let each = |f: (Seq<char>, Seq<u8>)| f.1;
            assert(held.take(i + 1).map_values(each) =~= held.take(i as int).map_values(each).push(
                held[i as int].1,
            ));
            held.take(i as int).map_values(each).lemma_flatten_push(held[i as int].1);
            assert(held[i as int].1 == files[i as int].1@);
        }
        i = i + 1;
    }
    proof {
        assert(held.take(i as int) =~= held);
    }
    Ok(digest_text(hashed.as_slice()))
}

/// The file name of each file's path.
pub open spec fn entry_names(files: Seq<(Seq<char>, Seq<u8>)>) -> Seq<Option<Seq<char>>> {
    files.map_values(|f: (Seq<char>, Seq<u8>)| path_file_name(f.0))
}

/// The file name of each path.
pub open spec fn base_names(paths: Seq<Seq<char>>) -> Seq<Option<Seq<char>>> {
    paths.map_values(|p: Seq<char>| path_file_name(p))
}

/// The files that are hashed for `names`, one byte string for each: for each of `names`
/// in turn the contents of the file in `files` that has the same file name, each file
/// name once.
pub open spec fn hashed_files(files: Seq<(Seq<char>, Seq<u8>)>, names: Seq<Seq<char>>) -> Seq<
    Seq<u8>,
> {
    picked(files, resolution(entry_names(files), base_names(names)))
}

/// The bytes that are hashed for a package: `prepend`, then the files that are hashed for
/// `names`, one after another.
pub open spec fn hashed_bytes(
    prepend: Seq<u8>,
    files: Seq<(Seq<char>, Seq<u8>)>,
    names: Seq<Seq<char>>,
) -> Seq<u8> {
    prepend + hashed_files(files, names).flatten()
}

/// The hash of a package: the digest text of `hashed_bytes`.
pub open spec fn level_hash(
    prepend: Seq<u8>,
    files: Seq<(Seq<char>, Seq<u8>)>,
    names: Seq<Seq<char>>,
) -> Seq<char> {
    sha1_hex(hashed_bytes(prepend, files, names))
}

/// The file name of the path of each of `files`.
fn file_names_of_files(files: &[(String, Vec<u8>)]) -> (names: Vec<Option<String>>)
    ensures
        names.deep_view() == entry_names(files.deep_view()),
{
    let mut names: Vec<Option<String>> = Vec::new();
    let mut i: usize = 0;
    while i < files.len()
        invariant
            i <= files.len(),
            names.deep_view() =~= entry_names(files.deep_view()).take(i as int),
        decreases files.len() - i,
    {
        let ghost before = names.deep_view();
        let name = file_name(files[i].0.as_str());
        names.push(name);
        assert(names.deep_view() =~= before.push(name.deep_view()));
        i = i + 1;
    }
    names
}

/// The file name of each of `paths`.
fn file_names_of_paths(paths: &[String]) -> (names: Vec<Option<String>>)
    ensures
        names.deep_view() == base_names(paths.deep_view()),
{
    let mut names: Vec<Option<String>> = Vec::new();
    let mut i: usize = 0;
    while i < paths.len()
        invariant
            i <= paths.len(),
            names.deep_view() =~= base_names(paths.deep_view()).take(i as int),
        decreases paths.len() - i,
    {
        let ghost before = names.deep_view();
        let name = file_name(paths[i].as_str());
        names.push(name);
        assert(names.deep_view() =~= before.push(name.deep_view()));
        i = i + 1;
    }
    names
}

/// The hash of the files that `names` lists, out of `files`, behind `prepend_bytes`.
///
/// Each name is matched to a file by file name alone, directories left aside. Where two
/// files share a file name the later one stands for it. A name without a file is passed
/// over, and a file name is hashed once however often it is listed.
pub fn compute_level_hash(
    prepend_bytes: &[u8],
    files: &[(String, Vec<u8>)],
    names: &[String],
) -> (text: String)
    ensures
        text@ == level_hash(prepend_bytes@, files.deep_view(), names.deep_view()),
        is_digest_text(text@),
{
    let entries = file_names_of_files(files);
    let wanted = file_names_of_paths(names);
    let entry_names = entries.as_slice();
    let wanted_names = wanted.as_slice();
    assert(entry_names.deep_view() =~= entries.deep_view());
    assert(wanted_names.deep_view() =~= wanted.deep_view());
    let order = resolve_by_basename(entry_names, wanted_names);
    digest_picked(prepend_bytes, files, &order)
}

/// The hash of a package from its files held in memory: the manifest's bytes, then the
/// beatmap files that the manifest lists, set by set. The song file is not hashed.
pub fn compute_custom_level_hash_from_info_dat(
    files: &[(String, Vec<u8>)],
    info: &InfoDat,
    info_bytes: &[u8],
) -> (digest: Result<String, std::io::Error>)
    ensures
        digest matches Ok(text) && text@ == level_hash(
            info_bytes@,
            files.deep_view(),
            info.beatmap_files(),
        ) && is_digest_text(text@),
{
    let names = beatmap_files_from_info_dat(info);
    let listed = names.as_slice();
    assert(listed.deep_view() =~= names.deep_view());
    Ok(compute_level_hash(info_bytes, files, listed))
}

/// Appends the beatmap file names of `info` to `out`, in manifest order.
fn push_beatmap_files(info: &InfoDat, out: &mut Vec<String>)
    ensures
        final(out).deep_view() == old(out).deep_view() + info.beatmap_files(),
{
    let ghost start = out.deep_view();
    match &info.difficulty_beatmap_sets {
        None => {
            assert(out.deep_view() =~= start + info.beatmap_files());
        },
        Some(sets) => {
            let mut i: usize = 0;
            assert(sets@.take(0) =~= Seq::<DifficultyBeatmapSet>::empty());
            assert(set_file_names(sets@.take(0)) =~= Seq::<Seq<char>>::empty());
            while i < sets.len()
                invariant
                    i <= sets.len(),
                    out.deep_view() =~= start + set_file_names(sets@.take(i as int)),
                decreases sets.len() - i,
            {
                let set = &sets[i];
                let ghost before = out.deep_view();
                let mut j: usize = 0;
                while j < set.difficulty_beatmaps.len()
                    invariant
                        j <= set.difficulty_beatmaps.len(),
                        out.deep_view() =~= before + set.file_names().take(j as int),
                    decreases set.difficulty_beatmaps.len() - j,
                {
                    let ghost prev = out.deep_view();
                    let name = set.difficulty_beatmaps[j].beatmap_filename.clone();
                    out.push(name);
                    assert(out.deep_view() =~= prev.push(name@));
                    assert(set.file_names().take(j + 1) =~= set.file_names().take(j as int).push(
                        set.file_names()[j as int],
                    ));
                    j = j + 1;
                }
                proof {
                    assert(set.file_names().take(j as int) =~= set.file_names());
                    assert(sets@.take(i + 1).map_values(|s: DifficultyBeatmapSet| s.file_names())
                        =~= sets@.take(i as int).map_values(
                        |s: DifficultyBeatmapSet| s.file_names(),
                    ).push(set.file_names()));
                    sets@.take(i as int).map_values(
                        |s: DifficultyBeatmapSet| s.file_names(),
                    ).lemma_flatten_push(set.file_names());
                }
                i = i + 1;
            }
            assert(sets@.take(i as int) =~= sets@);
        },
    }
}

/// The files of a package that its manifest names: the song, where there is one, then every
/// beatmap, set by set.
pub fn necessary_files_from_info_dat(info: &InfoDat) -> (files: Vec<String>)
    ensures
        files.deep_view() == info.necessary_files(),
{
    let mut files: Vec<String> = Vec::new();
    if let Some(song_filename) = &info.song_filename {
        files.push(song_filename.clone());
    }
    assert(files.deep_view() =~= info.song_files());
    push_beatmap_files(info, &mut files);
    files
}

/// The beatmap files that the manifest names, set by set, without the song.
pub fn beatmap_files_from_info_dat(info: &InfoDat) -> (files: Vec<String>)
    ensures
        files.deep_view() == info.beatmap_files(),
{
    let mut files: Vec<String> = Vec::new();
    push_beatmap_files(info, &mut files);
    assert(files.deep_view() =~= info.beatmap_files());
    files
}

/// A copy of `bytes`.
pub(crate) fn clone_bytes(bytes: &Vec<u8>) -> (copy: Vec<u8>)
    ensures
        copy@ == bytes@,
{
    let mut copy: Vec<u8> = Vec::with_capacity(bytes.len());
    copy.extend_from_slice(bytes.as_slice());
    assert(copy@ =~= bytes@);
    copy
}

/// The bytes of the last of `files` that lies at exactly `path`, if one does.
pub open spec fn file_at(files: Seq<(Seq<char>, Seq<u8>)>, path: Seq<char>) -> Option<Seq<u8>>
    decreases files.len(),
{
    if files.len() == 0 {
        None
    } else if files.last().0 == path {
        Some(files.last().1)
    } else {
        file_at(files.drop_last(), path)
    }
}

/// The bytes of the manifest among `files`: of `Info.dat`, or else of `info.dat`.
pub open spec fn manifest_in(files: Seq<(Seq<char>, Seq<u8>)>) -> Option<Seq<u8>> {
    match file_at(files, manifest_name(false)) {
        Some(bytes) => Some(bytes),
        None => file_at(files, manifest_name(true)),
    }
}

/// Where the last of `files` lies that is at exactly `path`.
fn find_file(files: &[(String, Vec<u8>)], path: &String) -> (at: Option<usize>)
    ensures
        match at {
            Some(k) => k < files.len() && file_at(files.deep_view(), path@) == Some(
                files[k as int].1@,
            ),
            None => file_at(files.deep_view(), path@) is None,
        },
{
    let ghost held = files.deep_view();
    let mut at: Option<usize> = None;
    let mut i: usize = 0;
    while i < files.len()
        invariant
            i <= files.len(),
            held == files.deep_view(),
            match at {
                Some(k) => k < i && file_at(held.take(i as int), path@) == Some(files[k as int].1@),
                None => file_at(held.take(i as int), path@) is None,
            },
        decreases files.len() - i,
    {
        proof {
            assert(held.take(i + 1).drop_last() =~= held.take(i as int));
            assert(held.take(i + 1).last() == held[i as int]);
            assert(held[i as int].1 =~= files[i as int].1@);
        }
        if files[i].0 == *path {
            at = Some(i);
        }
        i = i + 1;
    }
    proof {
        assert(held.take(i as int) =~= held);
    }
    at
}

/// The manifest among the files of a package held in memory: the bytes of the file at
/// `Info.dat`, or else of the file at `info.dat`, if the package has either.
pub fn info_dat_bytes_in(files: &[(String, Vec<u8>)]) -> (found: Option<Vec<u8>>)
    ensures
        match found {
            Some(bytes) => manifest_in(files.deep_view()) == Some(bytes@),
            None => manifest_in(files.deep_view()) is None,
        },
{
    let first = info_dat_name(false);
    match find_file(files, &first) {
        Some(k) => Some(clone_bytes(&files[k].1)),
        None => {
            let second = info_dat_name(true);
            match find_file(files, &second) {
                Some(k) => Some(clone_bytes(&files[k].1)),
                None => None,
            }
        },
    }
}

/// The hash of a package from its files held in memory, the manifest among them: as
/// `compute_custom_level_hash_from_info_dat`, behind the manifest's bytes as they are
/// found among the files. `info` is what those bytes decode to. Fails where the files
/// hold no manifest.
pub fn compute_custom_level_hash_from_files(files: &[(String, Vec<u8>)], info: &InfoDat) -> (digest:
    Result<String, std::io::Error>)
    ensures
        match manifest_in(files.deep_view()) {
            Some(bytes) => digest matches Ok(text) && text@ == level_hash(
                bytes,
                files.deep_view(),
                info.beatmap_files(),
            ) && is_digest_text(text@),
            None => digest is Err,
        },
{
    match info_dat_bytes_in(files) {
        Some(info_bytes) => compute_custom_level_hash_from_info_dat(
            files,
            info,
            info_bytes.as_slice(),
        ),
        None => Err(not_found("Info.dat not found")),
    }
}

} // verus!
