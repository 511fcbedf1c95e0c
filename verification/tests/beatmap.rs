use std::io::{Cursor, Write};

use song_load_rs::beatmap::{info_dat_name, Archive, Beatmap, SourceReply, SourceRequest};
use zip::write::SimpleFileOptions;
use zip::{CompressionMethod, ZipWriter};

fn archive_of(files: &[(&str, &[u8])], method: CompressionMethod) -> Vec<u8> {
    let mut writer = ZipWriter::new(Cursor::new(Vec::new()));
    for (name, bytes) in files {
        let options = SimpleFileOptions::default().compression_method(method);
        writer.start_file(*name, options).unwrap();
        writer.write_all(bytes).unwrap();
    }
    writer.finish().unwrap().into_inner()
}

fn bytes_of_reply(reply: Option<SourceReply>) -> Option<Vec<u8>> {
    match reply {
        Some(SourceReply::FileRead(Ok(bytes))) => Some(bytes),
        Some(SourceReply::FileRead(Err(_))) => None,
        _ => panic!("expected the outcome of one read"),
    }
}

#[test]
fn manifest_names_are_upper_then_lower() {
    assert_eq!(info_dat_name(false), "Info.dat");
    assert_eq!(info_dat_name(true), "info.dat");
}

#[test]
fn archive_gives_the_bytes_of_an_entry() {
    let packed = archive_of(
        &[("Info.dat", b"{}"), ("Easy.dat", b"easy easy easy easy easy easy")],
        CompressionMethod::Deflated,
    );
    let mut archive = Archive::open(packed.clone()).unwrap();
    let easy = archive.get_file_bytes("Easy.dat").unwrap();
    assert_eq!(easy, b"easy easy easy easy easy easy".to_vec());
    assert_ne!(easy, packed);
    assert_eq!(archive.get_file_bytes("Info.dat").unwrap(), b"{}".to_vec());
    // reading leaves the archive as it was
    assert_eq!(archive.get_file_bytes("Easy.dat").unwrap(), easy);
}

#[test]
fn archive_reads_stored_entries() {
    let packed = archive_of(&[("a/b.dat", b"nested")], CompressionMethod::Stored);
    let mut archive = Archive::open(packed).unwrap();
    assert_eq!(archive.get_file_bytes("a/b.dat").unwrap(), b"nested".to_vec());
}

#[test]
fn archive_reports_a_missing_entry_as_not_found() {
    let packed = archive_of(&[("Info.dat", b"{}")], CompressionMethod::Stored);
    let mut archive = Archive::open(packed).unwrap();
    let missing = archive.get_file_bytes("Hard.dat").unwrap_err();
    assert_eq!(missing.kind(), std::io::ErrorKind::NotFound);
}

#[test]
fn bytes_that_are_no_archive_do_not_open() {
    assert!(Archive::open(b"this is no archive".to_vec()).is_err());
    assert!(Archive::open(Vec::new()).is_err());
}

#[test]
fn archive_manifest_is_upper_case_first() {
    let both = archive_of(&[("info.dat", b"lower"), ("Info.dat", b"upper")], CompressionMethod::Stored);
    let mut archive = Archive::open(both).unwrap();
    assert_eq!(archive.get_info_dat_bytes().unwrap(), b"upper".to_vec());
    let lower = archive_of(&[("info.dat", b"lower")], CompressionMethod::Stored);
    let mut archive = Archive::open(lower).unwrap();
    assert_eq!(archive.get_info_dat_bytes().unwrap(), b"lower".to_vec());
    let none = archive_of(&[("Easy.dat", b"easy")], CompressionMethod::Stored);
    let mut archive = Archive::open(none).unwrap();
    assert!(archive.get_info_dat_bytes().is_err());
}

#[test]
fn archive_reads_several_files_in_order() {
    let packed = archive_of(&[("a", b"1"), ("b", b"2")], CompressionMethod::Stored);
    let mut archive = Archive::open(packed).unwrap();
    let paths = vec!["b".to_string(), "zz".to_string(), "a".to_string()];
    let reads = archive.get_files_bytes(&paths);
    assert_eq!(reads.len(), 3);
    assert_eq!(reads[0].as_ref().unwrap(), &b"2".to_vec());
    assert!(reads[1].is_err());
    assert_eq!(reads[2].as_ref().unwrap(), &b"1".to_vec());
}

#[test]
fn archive_answers_requests_for_files_only() {
    let packed = archive_of(&[("a", b"1"), ("b", b"2")], CompressionMethod::Stored);
    let mut archive = Archive::open(packed).unwrap();
    let one = archive.answer(&SourceRequest::ReadFile("a".to_string()));
    assert_eq!(bytes_of_reply(one), Some(b"1".to_vec()));
    let none = archive.answer(&SourceRequest::ReadFile("c".to_string()));
    assert_eq!(bytes_of_reply(none), None);
    match archive.answer(&SourceRequest::ReadFiles(vec!["b".to_string(), "c".to_string()])) {
        Some(SourceReply::FilesRead(reads)) => {
            assert_eq!(reads.len(), 2);
            assert_eq!(reads[0].as_ref().unwrap(), &b"2".to_vec());
            assert!(reads[1].is_err());
        }
        _ => panic!("expected the outcomes of the reads"),
    }
    assert!(archive.answer(&SourceRequest::DecodeManifest(b"{}".to_vec())).is_none());
}

#[test]
fn from_path_fails_where_nothing_lies() {
    let missing = Beatmap::from_path("/no/such".to_string(), false, None);
    match missing {
        Err(error) => assert_eq!(error.kind(), std::io::ErrorKind::NotFound),
        Ok(_) => panic!("expected a failure"),
    }
    let missing = Beatmap::from_path("/no/such".to_string(), false, Some(Vec::new()));
    assert!(missing.is_err());
}

#[test]
fn from_path_takes_a_file_for_an_archive() {
    let packed = archive_of(&[("Info.dat", b"{}")], CompressionMethod::Stored);
    match Beatmap::from_path("/songs/a.zip".to_string(), true, Some(packed)) {
        Ok(Beatmap::Zip(mut archive)) => {
            assert_eq!(archive.get_file_bytes("Info.dat").unwrap(), b"{}".to_vec())
        }
        _ => panic!("expected an archive"),
    }
    let broken = Beatmap::from_path("/songs/a.zip".to_string(), true, Some(b"junk".to_vec()));
    assert!(broken.is_err());
}

#[test]
fn from_path_takes_anything_else_for_a_directory() {
    match Beatmap::from_path("/songs/a".to_string(), true, None) {
        Ok(Beatmap::Directory(path)) => assert_eq!(path, "/songs/a"),
        _ => panic!("expected a directory"),
    }
}

#[test]
fn beatmap_answers_from_an_archive_and_not_from_a_directory() {
    let packed = archive_of(&[("a", b"1")], CompressionMethod::Stored);
    let mut zip = Beatmap::from_path("/songs/a.zip".to_string(), true, Some(packed)).unwrap();
    let read = zip.answer(&SourceRequest::ReadFile("a".to_string()));
    assert_eq!(bytes_of_reply(read), Some(b"1".to_vec()));
    let mut directory = Beatmap::from_path("/songs/a".to_string(), true, None).unwrap();
    assert!(directory.answer(&SourceRequest::ReadFile("a".to_string())).is_none());
}
