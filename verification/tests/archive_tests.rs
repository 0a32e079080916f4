use bin_until_trash::archive::{
    compress, compress_dir, compress_dir_zstd, refusal, ArchiveError, ENTRY_PERMISSIONS,
    ZSTD_LEVEL,
};
use bin_until_trash::config::Compression;
use bin_until_trash::tree::{FileMeta, TreeItem};
use std::io::{Cursor, Read};

fn meta(modified: u64) -> Option<FileMeta> {
    Some(FileMeta { mode: 0o100640, uid: 1000, gid: 100, modified })
}

fn file(name: &str, data: &[u8]) -> TreeItem {
    TreeItem::File { name: name.as_bytes().to_vec(), meta: meta(1_700_000_000), data: data.to_vec() }
}

fn dir(name: &str) -> TreeItem {
    TreeItem::Other { name: name.as_bytes().to_vec() }
}

fn sample_tree() -> Vec<TreeItem> {
    vec![
        dir(""),
        file("a.txt", b"alpha"),
        dir("sub"),
        file("sub/b.bin", &[0u8, 1, 2, 3, 255, 254]),
        dir("sub/empty"),
        file("sub/c.txt", b""),
    ]
}

struct ZipItem {
    year: u16,
    name: String,
    directory: bool,
    mode: Option<u32>,
    deflated: bool,
    stored: bool,
    data: Vec<u8>,
}

fn read_zip(bytes: Vec<u8>) -> Vec<ZipItem> {
    let mut archive = zip::ZipArchive::new(Cursor::new(bytes)).unwrap();
    let mut out = Vec::new();
    for i in 0..archive.len() {
        let mut f = archive.by_index(i).unwrap();
        let mut data = Vec::new();
        f.read_to_end(&mut data).unwrap();
        out.push(ZipItem {
            year: f.last_modified().map(|t| t.year()).unwrap_or(0),
            name: f.name().to_string(),
            directory: f.is_dir(),
            mode: f.unix_mode(),
            deflated: f.compression() == zip::CompressionMethod::Deflated,
            stored: f.compression() == zip::CompressionMethod::Stored,
            data,
        });
    }
    out
}

struct TarItem {
    name: String,
    regular: bool,
    mode: u32,
    uid: u64,
    gid: u64,
    modified: u64,
    data: Vec<u8>,
}

fn read_tar_zst(bytes: Vec<u8>) -> Vec<TarItem> {
    let tar_bytes = zstd::stream::decode_all(&bytes[..]).unwrap();
    let mut archive = tar::Archive::new(&tar_bytes[..]);
    let mut out = Vec::new();
    for entry in archive.entries().unwrap() {
        let mut entry = entry.unwrap();
        let name = entry.path().unwrap().to_string_lossy().to_string();
        let header = entry.header().clone();
        let mut data = Vec::new();
        entry.read_to_end(&mut data).unwrap();
        out.push(TarItem {
            name,
            regular: header.entry_type() == tar::EntryType::Regular,
            mode: header.mode().unwrap(),
            uid: header.uid().unwrap(),
            gid: header.gid().unwrap(),
            modified: header.mtime().unwrap(),
            data,
        });
    }
    out
}

#[test]
fn fixed_settings_of_the_formats() {
    assert_eq!(ENTRY_PERMISSIONS, 0o755);
    assert_eq!(ZSTD_LEVEL, 3);
}

#[test]
fn zip_round_trip_keeps_every_file_under_its_relative_path() {
    let bytes = compress_dir(&sample_tree()).unwrap();
    assert_eq!(&bytes[..2], b"PK");
    let items = read_zip(bytes);
    let names: Vec<&str> = items.iter().map(|i| i.name.as_str()).collect();
    assert_eq!(names, vec!["a.txt", "sub/", "sub/b.bin", "sub/empty/", "sub/c.txt"]);
    assert_eq!(items[0].data, b"alpha");
    assert_eq!(items[2].data, vec![0u8, 1, 2, 3, 255, 254]);
    assert_eq!(items[4].data, b"");
    assert!(!items[0].directory && !items[2].directory && !items[4].directory);
}

#[test]
fn zip_records_directories_but_not_the_root() {
    let items = read_zip(compress_dir(&sample_tree()).unwrap());
    let dirs: Vec<&str> = items.iter().filter(|i| i.directory).map(|i| i.name.as_str()).collect();
    assert_eq!(dirs, vec!["sub/", "sub/empty/"]);
    for d in items.iter().filter(|i| i.directory) {
        assert!(d.data.is_empty());
    }
}

#[test]
fn zip_entries_get_fixed_permissions_and_deflate() {
    let items = read_zip(compress_dir(&sample_tree()).unwrap());
    for item in &items {
        assert_eq!(item.mode.unwrap() & 0o777, 0o755, "{}", item.name);
    }
    for item in items.iter().filter(|i| !i.directory) {
        assert!(item.deflated, "{}", item.name);
    }
    for item in items.iter().filter(|i| i.directory) {
        assert!(item.stored, "{}", item.name);
    }
}

#[test]
fn zip_ignores_the_permissions_and_ownership_of_the_files() {
    let with = |m: Option<FileMeta>| {
        vec![dir(""), TreeItem::File { name: b"f".to_vec(), meta: m, data: b"x".to_vec() }]
    };
    let owner_only = compress_dir(&with(Some(FileMeta {
        mode: 0o100600,
        uid: 1,
        gid: 2,
        modified: 3,
    })))
    .unwrap();
    let unknown = compress_dir(&with(None)).unwrap();
    let everybody = compress_dir(&with(Some(FileMeta {
        mode: 0o100777,
        uid: 9,
        gid: 9,
        modified: 9,
    })))
    .unwrap();
    assert_eq!(owner_only, unknown);
    assert_eq!(owner_only, everybody);
    let items = read_zip(owner_only);
    assert_eq!(items[0].mode.unwrap() & 0o777, 0o755);
}

#[test]
fn zip_entries_carry_the_earliest_date_of_the_format() {
    let items = read_zip(compress_dir(&sample_tree()).unwrap());
    assert_eq!(items.len(), 5);
    for item in &items {
        assert_eq!(item.year, 1980, "{}", item.name);
    }
}

#[test]
fn zip_of_an_empty_walk_is_an_empty_archive() {
    let bytes = compress_dir(&vec![]).unwrap();
    assert!(read_zip(bytes).is_empty());
    let root_only = compress_dir(&vec![dir("")]).unwrap();
    assert!(read_zip(root_only).is_empty());
}

#[test]
fn zip_of_the_same_walk_is_the_same_bytes() {
    let one = compress_dir(&sample_tree()).unwrap();
    let two = compress_dir(&sample_tree()).unwrap();
    assert_eq!(one, two);
}

#[test]
fn zip_compresses_large_repetitive_content_and_restores_it() {
    let big: Vec<u8> = (0..200_000u32).map(|i| (i % 7) as u8).collect();
    let tree = vec![dir(""), file("big.dat", &big)];
    let bytes = compress_dir(&tree).unwrap();
    assert!(bytes.len() < big.len() / 10);
    let items = read_zip(bytes);
    assert_eq!(items.len(), 1);
    assert_eq!(items[0].data, big);
}

#[test]
fn zip_keeps_names_that_are_not_ascii() {
    let tree = vec![dir(""), file("目录/文件.txt", b"x")];
    let items = read_zip(compress_dir(&tree).unwrap());
    assert_eq!(items[0].name, "目录/文件.txt");
    assert_eq!(items[0].data, b"x");
}

#[test]
fn zip_stops_at_a_failure_of_the_walk() {
    let tree = vec![
        dir(""),
        file("a", b"1"),
        TreeItem::WalkFailed { reason: "permission denied".to_string() },
        file("b", b"2"),
    ];
    match compress_dir(&tree) {
        Err(ArchiveError::Walk { index, reason }) => {
            assert_eq!(index, 2);
            assert_eq!(reason, "permission denied");
        }
        other => panic!("unexpected: {:?}", other),
    }
}

#[test]
fn zip_rejects_a_name_that_is_not_utf8() {
    let tree = vec![
        dir(""),
        TreeItem::File { name: vec![b'a', 0xff, b'b'], meta: meta(1), data: vec![1] },
    ];
    assert!(matches!(compress_dir(&tree), Err(ArchiveError::InvalidName { index: 1 })));
    let tree = vec![dir(""), file("ok", b"1"), TreeItem::Other { name: vec![0xc3, 0x28] }];
    assert!(matches!(compress_dir(&tree), Err(ArchiveError::InvalidName { index: 2 })));
    let tree = vec![TreeItem::UnreadableFile { name: vec![0x80], reason: "r".to_string() }];
    assert!(matches!(compress_dir(&tree), Err(ArchiveError::InvalidName { index: 0 })));
}

#[test]
fn zip_rejects_a_name_that_is_too_long() {
    let long = "n".repeat(65_536);
    let tree = vec![dir(""), file(&long, b"1")];
    assert!(matches!(compress_dir(&tree), Err(ArchiveError::NameTooLong { index: 1 })));
    let just_fits = "n".repeat(65_535);
    let tree = vec![dir(""), file(&just_fits, b"1")];
    let items = read_zip(compress_dir(&tree).unwrap());
    assert_eq!(items[0].name, just_fits);
    let tree = vec![dir(""), dir(&just_fits)];
    assert!(matches!(compress_dir(&tree), Err(ArchiveError::NameTooLong { index: 1 })));
    let dir_fits = "d".repeat(65_534);
    let tree = vec![dir(""), dir(&dir_fits)];
    let items = read_zip(compress_dir(&tree).unwrap());
    assert_eq!(items[0].name.len(), 65_535);
    assert!(items[0].directory);
}

#[test]
fn zip_stops_at_a_file_that_could_not_be_read() {
    let tree = vec![
        dir(""),
        file("a", b"1"),
        TreeItem::UnreadableFile { name: b"locked".to_vec(), reason: "denied".to_string() },
        TreeItem::File { name: vec![0xff], meta: meta(1), data: vec![] },
    ];
    match compress_dir(&tree) {
        Err(ArchiveError::Read { index, reason }) => {
            assert_eq!(index, 2);
            assert_eq!(reason, "denied");
        }
        other => panic!("unexpected: {:?}", other),
    }
}

#[test]
fn zip_reports_the_first_trouble_in_walk_order() {
    let tree = vec![
        dir(""),
        TreeItem::File { name: vec![0xff], meta: meta(1), data: vec![] },
        TreeItem::WalkFailed { reason: "later".to_string() },
    ];
    assert!(matches!(compress_dir(&tree), Err(ArchiveError::InvalidName { index: 1 })));
}

#[test]
fn zip_writer_refuses_a_repeated_name() {
    let tree = vec![dir(""), file("same", b"1"), file("other", b"2"), file("same", b"3")];
    match compress_dir(&tree) {
        Err(ArchiveError::Container { index, reason }) => {
            assert_eq!(index, 3);
            assert!(reason.contains("Duplicate filename"), "{}", reason);
        }
        other => panic!("unexpected: {:?}", other),
    }
}

#[test]
fn zip_writer_refuses_a_file_named_like_a_directory_entry() {
    let tree = vec![dir(""), dir("sub"), file("sub/", b"1")];
    match compress_dir(&tree) {
        Err(ArchiveError::Container { index, reason }) => {
            assert_eq!(index, 2);
            assert!(reason.contains("Duplicate filename"), "{}", reason);
        }
        other => panic!("unexpected: {:?}", other),
    }
    let tree = vec![dir(""), file("sub/", b"1"), dir("sub")];
    assert!(matches!(compress_dir(&tree), Err(ArchiveError::Container { index: 2, .. })));
}

#[test]
fn zip_refusal_of_an_unreadable_file_comes_before_its_read_failure() {
    let tree = vec![
        dir(""),
        file("same", b"1"),
        TreeItem::UnreadableFile { name: b"same".to_vec(), reason: "denied".to_string() },
    ];
    assert!(matches!(compress_dir(&tree), Err(ArchiveError::Container { index: 2, .. })));
}

#[test]
fn refusal_keeps_the_position_and_the_words() {
    match refusal(7, "no room".to_string()) {
        ArchiveError::Container { index, reason } => {
            assert_eq!(index, 7);
            assert_eq!(reason, "no room");
        }
        other => panic!("unexpected: {:?}", other),
    }
}

#[test]
fn tar_round_trip_keeps_every_file_under_its_relative_path() {
    let bytes = compress_dir_zstd(&sample_tree()).unwrap();
    assert_eq!(&bytes[..4], &[0x28, 0xb5, 0x2f, 0xfd]);
    let items = read_tar_zst(bytes);
    let names: Vec<&str> = items.iter().map(|i| i.name.as_str()).collect();
    assert_eq!(names, vec!["a.txt", "sub/b.bin", "sub/c.txt"]);
    assert_eq!(items[0].data, b"alpha");
    assert_eq!(items[1].data, vec![0u8, 1, 2, 3, 255, 254]);
    assert_eq!(items[2].data, b"");
    for item in &items {
        assert!(item.regular);
    }
}

#[test]
fn tar_keeps_ownership_permissions_and_age() {
    let tree = vec![
        dir(""),
        TreeItem::File {
            name: b"x".to_vec(),
            meta: Some(FileMeta { mode: 0o100755, uid: 7, gid: 8, modified: 1_234_567 }),
            data: b"xx".to_vec(),
        },
        TreeItem::File {
            name: b"y".to_vec(),
            meta: Some(FileMeta { mode: 0o100600, uid: 0, gid: 0, modified: 0 }),
            data: b"yyy".to_vec(),
        },
    ];
    let items = read_tar_zst(compress_dir_zstd(&tree).unwrap());
    assert_eq!(items.len(), 2);
    assert_eq!(items[0].mode, 0o100755);
    assert_eq!((items[0].uid, items[0].gid, items[0].modified), (7, 8, 1_234_567));
    assert_eq!(items[1].mode, 0o100600);
    assert_eq!((items[1].uid, items[1].gid, items[1].modified), (0, 0, 0));
}

#[test]
fn tar_of_an_empty_walk_is_an_empty_archive() {
    assert!(read_tar_zst(compress_dir_zstd(&vec![]).unwrap()).is_empty());
    assert!(read_tar_zst(compress_dir_zstd(&vec![dir(""), dir("only")]).unwrap()).is_empty());
}

#[test]
fn tar_of_the_same_walk_is_the_same_bytes() {
    let one = compress_dir_zstd(&sample_tree()).unwrap();
    let two = compress_dir_zstd(&sample_tree()).unwrap();
    assert_eq!(one, two);
}

#[test]
fn tar_keeps_long_names_and_large_content() {
    let long = format!("{}/{}", "d".repeat(120), "f".repeat(150));
    let big: Vec<u8> = (0..300_000u32).map(|i| (i % 11) as u8).collect();
    let tree = vec![dir(""), file(&long, &big)];
    let bytes = compress_dir_zstd(&tree).unwrap();
    assert!(bytes.len() < big.len() / 10);
    let items = read_tar_zst(bytes);
    assert_eq!(items.len(), 1);
    assert_eq!(items[0].name, long);
    assert_eq!(items[0].data, big);
}

#[test]
fn tar_passes_over_what_is_not_a_file_whatever_its_name() {
    let tree = vec![dir(""), TreeItem::Other { name: vec![0xff, 0xfe] }, file("a", b"1")];
    let items = read_tar_zst(compress_dir_zstd(&tree).unwrap());
    assert_eq!(items.len(), 1);
    assert_eq!(items[0].name, "a");
}

#[test]
fn tar_stops_at_a_failure_of_the_walk() {
    let tree = vec![file("a", b"1"), TreeItem::WalkFailed { reason: "gone".to_string() }];
    match compress_dir_zstd(&tree) {
        Err(ArchiveError::Walk { index, reason }) => {
            assert_eq!(index, 1);
            assert_eq!(reason, "gone");
        }
        other => panic!("unexpected: {:?}", other),
    }
}

#[test]
fn tar_rejects_a_file_name_that_is_not_utf8() {
    let tree = vec![
        dir(""),
        file("a", b"1"),
        TreeItem::File { name: vec![b'x', 0xff], meta: meta(1), data: vec![] },
    ];
    assert!(matches!(compress_dir_zstd(&tree), Err(ArchiveError::InvalidName { index: 2 })));
    let tree = vec![TreeItem::UnreadableFile { name: vec![0xff], reason: "r".to_string() }];
    assert!(matches!(compress_dir_zstd(&tree), Err(ArchiveError::InvalidName { index: 0 })));
}

#[test]
fn tar_stops_at_a_file_that_could_not_be_read() {
    let tree = vec![
        dir(""),
        TreeItem::UnreadableFile { name: b"locked".to_vec(), reason: "denied".to_string() },
        file("a", b"1"),
    ];
    match compress_dir_zstd(&tree) {
        Err(ArchiveError::Read { index, reason }) => {
            assert_eq!(index, 1);
            assert_eq!(reason, "denied");
        }
        other => panic!("unexpected: {:?}", other),
    }
}

#[test]
fn tar_rejects_a_name_that_it_would_not_record_as_it_stands() {
    let odd: [&str; 11] =
        ["../escape", "a/../b", "./a", "a/./b", "a/.", "a/..", "/abs", "a//b", "a/", ".", ""];
    for name in odd {
        let tree = vec![dir(""), file("ok", b"1"), file(name, b"2")];
        assert!(
            matches!(compress_dir_zstd(&tree), Err(ArchiveError::UnfitName { index: 2 })),
            "{:?}",
            name
        );
    }
    let tree = vec![TreeItem::File { name: vec![b'a', 0, b'b'], meta: meta(1), data: vec![] }];
    assert!(matches!(compress_dir_zstd(&tree), Err(ArchiveError::UnfitName { index: 0 })));
}

#[test]
fn tar_keeps_names_with_dots_that_are_no_dot_components() {
    let names = [".hidden", "a/.b", "a..b", "...", "a/..b/c.", "x.tar.zst"];
    let tree: Vec<TreeItem> = names.iter().map(|n| file(n, n.as_bytes())).collect();
    let items = read_tar_zst(compress_dir_zstd(&tree).unwrap());
    let got: Vec<&str> = items.iter().map(|i| i.name.as_str()).collect();
    assert_eq!(got, names);
    for item in &items {
        assert_eq!(item.data, item.name.as_bytes());
    }
}

#[test]
fn tar_rejects_a_file_whose_ownership_is_not_known() {
    let tree = vec![dir(""), TreeItem::File { name: b"a".to_vec(), meta: None, data: vec![1] }];
    assert!(matches!(compress_dir_zstd(&tree), Err(ArchiveError::MissingMeta { index: 1 })));
}

#[test]
fn tar_rejects_header_fields_that_do_not_fit() {
    let with = |m: FileMeta| {
        vec![dir(""), TreeItem::File { name: b"a".to_vec(), meta: Some(m), data: vec![1] }]
    };
    let fine = FileMeta { mode: 0o7777777, uid: (1 << 63) - 1, gid: (1 << 63) - 1, modified: u64::MAX };
    let items = read_tar_zst(compress_dir_zstd(&with(fine)).unwrap());
    assert_eq!(items[0].mode, 0o7777777);
    assert_eq!(items[0].uid, (1 << 63) - 1);
    assert_eq!(items[0].gid, (1 << 63) - 1);
    assert_eq!(items[0].modified, u64::MAX);
    let mode = FileMeta { mode: 0o10000000, ..fine };
    assert!(matches!(compress_dir_zstd(&with(mode)), Err(ArchiveError::UnfitMeta { index: 1 })));
    let uid = FileMeta { uid: 1 << 63, ..fine };
    assert!(matches!(compress_dir_zstd(&with(uid)), Err(ArchiveError::UnfitMeta { index: 1 })));
    let gid = FileMeta { gid: u64::MAX, ..fine };
    assert!(matches!(compress_dir_zstd(&with(gid)), Err(ArchiveError::UnfitMeta { index: 1 })));
}

#[test]
fn tar_checks_the_name_before_the_ownership() {
    let tree = vec![TreeItem::File { name: b"./a".to_vec(), meta: None, data: vec![] }];
    assert!(matches!(compress_dir_zstd(&tree), Err(ArchiveError::UnfitName { index: 0 })));
    let tree = vec![TreeItem::File { name: vec![0xff], meta: None, data: vec![] }];
    assert!(matches!(compress_dir_zstd(&tree), Err(ArchiveError::InvalidName { index: 0 })));
}

#[test]
fn compress_picks_the_format() {
    let zip_bytes = compress(&sample_tree(), &Compression::Zip).unwrap();
    assert_eq!(zip_bytes, compress_dir(&sample_tree()).unwrap());
    assert_eq!(read_zip(zip_bytes).len(), 5);
    let tar_bytes = compress(&sample_tree(), &Compression::Zstd).unwrap();
    assert_eq!(tar_bytes, compress_dir_zstd(&sample_tree()).unwrap());
    assert_eq!(read_tar_zst(tar_bytes).len(), 3);
}

#[test]
fn compress_hands_on_the_failure_of_the_format() {
    let tree = vec![dir(""), TreeItem::Other { name: vec![0xff] }];
    assert!(matches!(
        compress(&tree, &Compression::Zip),
        Err(ArchiveError::InvalidName { index: 1 })
    ));
    assert!(compress(&tree, &Compression::Zstd).is_ok());
}
