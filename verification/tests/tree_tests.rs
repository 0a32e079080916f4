use bin_until_trash::tree::{is_plain_name, meta_fits_header, FileMeta, MODE_LIMIT, OWNER_LIMIT};

fn plain(name: &str) -> bool {
    is_plain_name(&name.as_bytes().to_vec())
}

#[test]
fn relative_paths_are_plain() {
    assert!(plain("a"));
    assert!(plain("a/b/c.txt"));
    assert!(plain(".hidden"));
    assert!(plain("..."));
    assert!(plain("a/..b"));
    assert!(plain("a./b.."));
    assert!(plain("dir with space/文"));
    assert!(is_plain_name(&vec![0xff, b'/', 0xfe]));
}

#[test]
fn empty_and_absolute_paths_are_not_plain() {
    assert!(!plain(""));
    assert!(!plain("/"));
    assert!(!plain("/a"));
}

#[test]
fn empty_components_and_closing_slashes_are_not_plain() {
    assert!(!plain("a//b"));
    assert!(!plain("a/"));
    assert!(!plain("a/b/"));
}

#[test]
fn dot_components_are_not_plain() {
    assert!(!plain("."));
    assert!(!plain(".."));
    assert!(!plain("./a"));
    assert!(!plain("../a"));
    assert!(!plain("a/./b"));
    assert!(!plain("a/../b"));
    assert!(!plain("a/."));
    assert!(!plain("a/.."));
}

#[test]
fn nul_bytes_are_not_plain() {
    assert!(!is_plain_name(&vec![0]));
    assert!(!is_plain_name(&vec![b'a', 0]));
    assert!(!is_plain_name(&vec![b'a', b'/', 0, b'b']));
}

#[test]
fn header_limits() {
    assert_eq!(MODE_LIMIT, 1 << 21);
    assert_eq!(OWNER_LIMIT, 1 << 63);
    let fits = FileMeta { mode: MODE_LIMIT - 1, uid: OWNER_LIMIT - 1, gid: OWNER_LIMIT - 1, modified: u64::MAX };
    assert!(meta_fits_header(&fits));
    assert!(meta_fits_header(&FileMeta { mode: 0, uid: 0, gid: 0, modified: 0 }));
    assert!(!meta_fits_header(&FileMeta { mode: MODE_LIMIT, ..fits }));
    assert!(!meta_fits_header(&FileMeta { uid: OWNER_LIMIT, ..fits }));
    assert!(!meta_fits_header(&FileMeta { gid: OWNER_LIMIT, ..fits }));
    assert!(!meta_fits_header(&FileMeta { mode: u32::MAX, uid: u64::MAX, gid: u64::MAX, modified: 0 }));
}
