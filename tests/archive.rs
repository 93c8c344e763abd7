use std::io::{Cursor, Write};

use otterpack::{PackError, extract_flat_files, is_flat_entry_name, open_archive, select_flat_entries, archive_entry_names};
use zip::write::SimpleFileOptions;
use zip::ZipWriter;

fn build_zip(files: &[(&str, &[u8])], dirs: &[&str]) -> Vec<u8> {
    let mut w = ZipWriter::new(Cursor::new(Vec::new()));
    let opts = SimpleFileOptions::default();
    for d in dirs {
        w.add_directory(*d, opts).unwrap();
    }
    for (name, data) in files {
        w.start_file(*name, opts).unwrap();
        w.write_all(data).unwrap();
    }
    w.finish().unwrap().into_inner()
}

#[test]
fn only_flat_entries_are_extracted() {
    let data = build_zip(&[("a.txt", b"alpha"), ("dir/b.txt", b"beta")], &["dir/"]);
    let mut archive = open_archive(data).unwrap();
    let files = extract_flat_files(&mut archive).unwrap();
    assert_eq!(files.len(), 1);
    assert_eq!(files[0].name, "a.txt");
    assert_eq!(files[0].contents, b"alpha".to_vec());
}

#[test]
fn entry_names_in_directory_order() {
    let data = build_zip(&[("ffmpeg.exe", b"MZ"), ("notes.txt", b"hi")], &["sub/"]);
    let archive = open_archive(data).unwrap();
    assert_eq!(archive_entry_names(&archive), vec!["sub/", "ffmpeg.exe", "notes.txt"]);
}

#[test]
fn contents_are_decompressed() {
    let big = vec![7u8; 50_000];
    let data = build_zip(&[("ffmpeg.exe", &big), ("readme", b"x")], &[]);
    assert!(data.len() < big.len());
    let mut archive = open_archive(data).unwrap();
    let files = extract_flat_files(&mut archive).unwrap();
    assert_eq!(files.len(), 2);
    assert_eq!(files[0].name, "ffmpeg.exe");
    assert_eq!(files[0].contents, big);
    assert_eq!(files[1].name, "readme");
    assert_eq!(files[1].contents, b"x".to_vec());
}

#[test]
fn backslash_names_are_skipped() {
    let data = build_zip(&[("evil\\x.txt", b"no"), ("ok.txt", b"yes")], &[]);
    let mut archive = open_archive(data).unwrap();
    let files = extract_flat_files(&mut archive).unwrap();
    assert_eq!(files.len(), 1);
    assert_eq!(files[0].name, "ok.txt");
}

#[test]
fn empty_archive_extracts_nothing() {
    let data = build_zip(&[], &[]);
    let mut archive = open_archive(data).unwrap();
    assert_eq!(extract_flat_files(&mut archive).unwrap(), vec![]);
}

#[test]
fn garbage_is_a_corrupt_archive() {
    let r = open_archive(b"PK\x03\x04 this is not really an archive".to_vec());
    assert_eq!(r.err(), Some(PackError::CorruptArchive));
    assert_eq!(PackError::CorruptArchive.message(), "Failed to read ZIP data");
}

#[test]
fn truncated_archive_is_corrupt() {
    let data = build_zip(&[("a.txt", b"alpha")], &[]);
    let cut = data[..data.len() - 10].to_vec();
    assert_eq!(open_archive(cut).err(), Some(PackError::CorruptArchive));
}

#[test]
fn flat_name_rules() {
    assert!(is_flat_entry_name("a.txt"));
    assert!(is_flat_entry_name("ffmpeg.exe"));
    assert!(!is_flat_entry_name("dir/"));
    assert!(!is_flat_entry_name("dir/b.txt"));
    assert!(!is_flat_entry_name("dir\\b.txt"));
    assert!(is_flat_entry_name(""));
}

#[test]
fn flat_positions_in_order() {
    let names: Vec<String> = ["a.txt", "dir/", "dir/b.txt", "c"].iter().map(|s| s.to_string()).collect();
    assert_eq!(select_flat_entries(&names), vec![0, 3]);
}
