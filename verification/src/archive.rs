//! Building an archive of a whole source tree, in memory.
//!
//! Two formats are offered. The zip container records every file under its
//! relative path with deflate compression and fixed permissions, and every
//! directory but the root as an entry of its own. The tar stream,
//! compressed with zstd, records the regular files only, each with the
//! ownership, permissions and age that the walk reported.
//!
//! Both work through the items of a walk in order and stop at the first
//! that cannot be archived. What comes out, for success and for each
//! failure, is a function of the walk: [`zip_archive`] and
//! [`tar_zstd_archive`] say which.

use crate::config::Compression;
use crate::tar_codec::{tar_append_file, tar_append_file_result, tar_entries, tar_level};
use crate::tar_codec::{tar_zstd_finish, tar_zstd_finish_result, tar_zstd_new};
use crate::tar_codec::{tar_zstd_new_result, TarEntry};
use crate::tree::{fits_header, is_plain_name, meta_fits_header, nodes, plain_name, text_of};
use crate::tree::{FileMeta, TreeItem, TreeNode};
use crate::zip_codec::{directory_entry_name, zip_add_directory, zip_add_directory_result};
use crate::zip_codec::{zip_entries, zip_finish, zip_finish_result, zip_intact, zip_new};
use crate::zip_codec::{zip_start_file, zip_start_file_result, zip_write_all};
use crate::zip_codec::{zip_write_all_result, ZipBuilder, ZipEntry, ZipMethod, MAX_NAME_BYTES};
use vstd::prelude::*;
use vstd::string::StringSliceAdditionalSpecFns;
use vstd::utf8::{decode_utf8, decode_utf8_encode_utf8, valid_utf8};

verus! {

/// The permissions that every entry of a zip archive is given, whatever the
/// file on disk has: read, write and execute for the owner, read and
/// execute for everybody else.
pub const ENTRY_PERMISSIONS: u32 = 0o755;

/// The zstd compression level of the tar format: low and fast.
pub const ZSTD_LEVEL: i32 = 3;

/// Why an archive could not be built. `index` is the position in the walk
/// of the item at which building stopped; `reason` is the description that
/// came with the failure.
#[derive(Debug)]
pub enum ArchiveError {
    /// The walk itself failed.
    Walk { index: usize, reason: String },
    /// A relative path is not valid UTF-8 and cannot be an entry name.
    InvalidName { index: usize },
    /// A relative path is longer than an entry name of the format may be.
    NameTooLong { index: usize },
    /// A relative path is not one that the format records as it stands.
    UnfitName { index: usize },
    /// The ownership, permissions and age of a file are not known.
    MissingMeta { index: usize },
    /// The mode, owner or group of a file does not fit the format's header.
    UnfitMeta { index: usize },
    /// A file could not be opened or read.
    Read { index: usize, reason: String },
    /// The archive writer refused the item.
    Container { index: usize, reason: String },
    /// The archive writer could not be set up.
    Setup { reason: String },
    /// The archive could not be completed after the last item.
    Finish { reason: String },
}

/// The mathematical value of an [`ArchiveError`].
pub enum Failure {
    Walk { index: int, reason: Seq<char> },
    InvalidName { index: int },
    NameTooLong { index: int },
    UnfitName { index: int },
    MissingMeta { index: int },
    UnfitMeta { index: int },
    Read { index: int, reason: Seq<char> },
    Container { index: int, reason: Seq<char> },
    Setup { reason: Seq<char> },
    Finish { reason: Seq<char> },
}

impl View for ArchiveError {
    type V = Failure;

    open spec fn view(&self) -> Failure {
        match self {
            ArchiveError::Walk { index, reason } => Failure::Walk {
                index: *index as int,
                reason: reason@,
            },
            ArchiveError::InvalidName { index } => Failure::InvalidName { index: *index as int },
            ArchiveError::NameTooLong { index } => Failure::NameTooLong { index: *index as int },
            ArchiveError::UnfitName { index } => Failure::UnfitName { index: *index as int },
            ArchiveError::MissingMeta { index } => Failure::MissingMeta { index: *index as int },
            ArchiveError::UnfitMeta { index } => Failure::UnfitMeta { index: *index as int },
            ArchiveError::Read { index, reason } => Failure::Read {
                index: *index as int,
                reason: reason@,
            },
            ArchiveError::Container { index, reason } => Failure::Container {
                index: *index as int,
                reason: reason@,
            },
            ArchiveError::Setup { reason } => Failure::Setup { reason: reason@ },
            ArchiveError::Finish { reason } => Failure::Finish { reason: reason@ },
        }
    }
}

/// The mathematical value of what a builder returns.
pub open spec fn outcome(r: Result<Vec<u8>, ArchiveError>) -> Result<Seq<u8>, Failure> {
    match r {
        Ok(bytes) => Ok(bytes@),
        Err(e) => Err(e@),
    }
}

/// What stands in the way of a relative path as an entry name of at most
/// `limit` bytes: that it is no valid UTF-8, or that it is too long.
pub open spec fn name_trouble(name: Seq<u8>, limit: int, index: int) -> Option<Failure> {
    if !valid_utf8(name) {
        Some(Failure::InvalidName { index })
    } else if name.len() > limit {
        Some(Failure::NameTooLong { index })
    } else {
        None
    }
}

/// The relative path `name` as an entry name of at most `limit` bytes.
fn entry_name(name: &Vec<u8>, limit: usize, index: usize) -> (r: Result<&str, ArchiveError>)
    ensures
        match r {
            Ok(text) => {
                &&& name_trouble(name@, limit as int, index as int) is None
                &&& text@ == decode_utf8(name@)
                &&& text.spec_bytes() == name@
            },
            Err(e) => name_trouble(name@, limit as int, index as int) == Some(e@),
        },
{
    match text_of(name.as_slice()) {
        None => Err(ArchiveError::InvalidName { index }),
        Some(text) => {
            proof {
                decode_utf8_encode_utf8(name@);
            }
            if name.len() > limit {
                Err(ArchiveError::NameTooLong { index })
            } else {
                Ok(text)
            }
        },
    }
}

/// The error for an item that the archive writer refused, with the
/// writer's own words.
pub fn refusal(index: usize, reason: String) -> (e: ArchiveError)
    ensures
        e@ == (Failure::Container { index: index as int, reason: reason@ }),
{
    ArchiveError::Container { index, reason }
}

/// The permission bits that a zip entry stores for the requested ones.
pub open spec fn stored_permissions(permissions: u32) -> u32 {
    permissions & 0o777
}

/// The zip entry of a file.
pub open spec fn zip_file_entry(
    name: Seq<u8>,
    method: ZipMethod,
    permissions: u32,
    data: Seq<u8>,
) -> ZipEntry {
    ZipEntry {
        name: decode_utf8(name),
        directory: false,
        method,
        permissions: stored_permissions(permissions),
        data,
    }
}

/// The zip entry of a directory: stored as it is, whatever method the
/// files get.
pub open spec fn zip_directory_entry(name: Seq<u8>, permissions: u32) -> ZipEntry {
    ZipEntry {
        name: directory_entry_name(decode_utf8(name)),
        directory: true,
        method: ZipMethod::Stored,
        permissions: stored_permissions(permissions),
        data: Seq::empty(),
    }
}

/// The zip entry that a node of the walk becomes: a file entry for a file,
/// a directory entry for anything else that has a name, nothing for the
/// root.
pub open spec fn zip_entry_of(node: TreeNode, method: ZipMethod, permissions: u32) -> Option<
    ZipEntry,
> {
    match node {
        TreeNode::File { name, data, .. } => Some(zip_file_entry(name, method, permissions, data)),
        TreeNode::Other { name } => if name.len() == 0 {
            None
        } else {
            Some(zip_directory_entry(name, permissions))
        },
        _ => None,
    }
}

/// The entries that a walk becomes in a zip archive, in walk order.
pub open spec fn zip_plan(walk: Seq<TreeNode>, method: ZipMethod, permissions: u32) -> Seq<
    ZipEntry,
>
    decreases walk.len(),
{
    if walk.len() == 0 {
        Seq::empty()
    } else {
        let earlier = zip_plan(walk.drop_last(), method, permissions);
        match zip_entry_of(walk.last(), method, permissions) {
            Some(entry) => earlier.push(entry),
            None => earlier,
        }
    }
}

/// What one node of the walk does to a zip archive that holds `done`: the
/// entries afterwards, or the failure that ends the building.
///
/// A failure of the walk ends it. A name that is no text or too long ends
/// it (a directory needs room for its closing slash). A file is started and
/// then written; a file that could not be read is started and then ends
/// the building; anything else with a name is added as a directory; the
/// root is passed over. Where the writer refuses, its words are the reason.
pub open spec fn zip_step(
    done: Seq<ZipEntry>,
    node: TreeNode,
    index: int,
    method: ZipMethod,
    permissions: u32,
) -> Result<Seq<ZipEntry>, Failure> {
    match node {
        TreeNode::WalkFailed { reason } => Err(Failure::Walk { index, reason }),
        TreeNode::File { name, data, .. } => match name_trouble(
            name,
            MAX_NAME_BYTES as int,
            index,
        ) {
            Some(failure) => Err(failure),
            None => match zip_start_file_result(done, decode_utf8(name), method, permissions) {
                Err(reason) => Err(Failure::Container { index, reason }),
                Ok(_) => match zip_write_all_result(
                    done.push(zip_file_entry(name, method, permissions, Seq::empty())),
                    data,
                ) {
                    Err(reason) => Err(Failure::Container { index, reason }),
                    Ok(_) => Ok(done.push(zip_file_entry(name, method, permissions, data))),
                },
            },
        },
        TreeNode::UnreadableFile { name, reason } => match name_trouble(
            name,
            MAX_NAME_BYTES as int,
            index,
        ) {
            Some(failure) => Err(failure),
            None => match zip_start_file_result(done, decode_utf8(name), method, permissions) {
                Err(words) => Err(Failure::Container { index, reason: words }),
                Ok(_) => Err(Failure::Read { index, reason }),
            },
        },
        TreeNode::Other { name } => match name_trouble(name, MAX_NAME_BYTES - 1, index) {
            Some(failure) => Err(failure),
            None => if name.len() == 0 {
                Ok(done)
            } else {
                match zip_add_directory_result(done, decode_utf8(name), permissions) {
                    Err(reason) => Err(Failure::Container { index, reason }),
                    Ok(_) => Ok(done.push(zip_directory_entry(name, permissions))),
                }
            },
        },
    }
}

/// What a walk does to a zip archive that holds `base`: the entries after
/// the last node, or the failure of the first node that fails.
pub open spec fn zip_walk(
    base: Seq<ZipEntry>,
    walk: Seq<TreeNode>,
    method: ZipMethod,
    permissions: u32,
) -> Result<Seq<ZipEntry>, Failure>
    decreases walk.len(),
{
    if walk.len() == 0 {
        Ok(base)
    } else {
        match zip_walk(base, walk.drop_last(), method, permissions) {
            Err(failure) => Err(failure),
            Ok(done) => zip_step(done, walk.last(), walk.len() - 1, method, permissions),
        }
    }
}

/// What [`compress_dir`] returns for a walk: the bytes that the writer
/// gives for the entries of the walk, deflated and with
/// [`ENTRY_PERMISSIONS`], or the failure of the first node that fails, or
/// the writer's refusal to finish.
pub open spec fn zip_archive(walk: Seq<TreeNode>) -> Result<Seq<u8>, Failure> {
    match zip_walk(Seq::empty(), walk, ZipMethod::Deflated, ENTRY_PERMISSIONS) {
        Err(failure) => Err(failure),
        Ok(entries) => match zip_finish_result(entries) {
            Ok(bytes) => Ok(bytes),
            Err(reason) => Err(Failure::Finish { reason }),
        },
    }
}

/// A failure within the first `n` nodes is the failure of the whole walk.
proof fn lemma_zip_failure_stays(
    base: Seq<ZipEntry>,
    walk: Seq<TreeNode>,
    n: int,
    method: ZipMethod,
    permissions: u32,
)
    requires
        0 <= n <= walk.len(),
        zip_walk(base, walk.take(n), method, permissions) is Err,
    ensures
        zip_walk(base, walk, method, permissions) == zip_walk(
            base,
            walk.take(n),
            method,
            permissions,
        ),
    decreases walk.len() - n,
{
    if n == walk.len() {
        assert(walk.take(n) == walk);
    } else {
        assert(walk.drop_last().take(n) == walk.take(n));
        lemma_zip_failure_stays(base, walk.drop_last(), n, method, permissions);
    }
}

/// A walk that goes through leaves the entries of its plan, in order,
/// behind those that were there.
pub proof fn lemma_zip_walk_follows_the_plan(
    base: Seq<ZipEntry>,
    walk: Seq<TreeNode>,
    method: ZipMethod,
    permissions: u32,
)
    requires
        zip_walk(base, walk, method, permissions) is Ok,
    ensures
        zip_walk(base, walk, method, permissions) == Ok::<Seq<ZipEntry>, Failure>(
            base + zip_plan(walk, method, permissions),
        ),
    decreases walk.len(),
{
    if walk.len() == 0 {
        assert(base + zip_plan(walk, method, permissions) == base);
    } else {
        lemma_zip_walk_follows_the_plan(base, walk.drop_last(), method, permissions);
        let earlier = zip_plan(walk.drop_last(), method, permissions);
        match zip_entry_of(walk.last(), method, permissions) {
            Some(entry) => {
                assert((base + earlier).push(entry) == base + earlier.push(entry));
            },
            None => {},
        }
    }
}

/// Hands one item of a walk to a zip archive under construction.
fn zip_item(
    item: &TreeItem,
    index: usize,
    writer: &mut ZipBuilder,
    method: ZipMethod,
    permissions: u32,
) -> (r: Result<(), ArchiveError>)
    requires
        zip_intact(*old(writer)),
    ensures
        match r {
            Ok(()) => {
                &&& zip_intact(*final(writer))
                &&& zip_step(zip_entries(*old(writer)), item@, index as int, method, permissions)
                    == Ok::<Seq<ZipEntry>, Failure>(zip_entries(*final(writer)))
            },
            Err(e) => zip_step(zip_entries(*old(writer)), item@, index as int, method, permissions)
                == Err::<Seq<ZipEntry>, Failure>(e@),
        },
{
    let ghost done = zip_entries(*writer);
    match item {
        TreeItem::WalkFailed { reason } => Err(ArchiveError::Walk { index, reason: reason.clone() }),
        TreeItem::File { name, data, .. } => {
            let text = match entry_name(name, MAX_NAME_BYTES, index) {
                Ok(text) => text,
                Err(e) => {
                    return Err(e);
                },
            };
            match zip_start_file(writer, text, method, permissions) {
                Ok(()) => {},
                Err(reason) => {
                    return Err(refusal(index, reason));
                },
            }
            match zip_write_all(writer, data.as_slice()) {
                Ok(()) => {},
                Err(reason) => {
                    return Err(refusal(index, reason));
                },
            }
            proof {
                assert(Seq::<u8>::empty() + data@ == data@);
                assert(zip_entries(*writer) == done.push(
                    zip_file_entry(name@, method, permissions, data@),
                ));
            }
            Ok(())
        },
        TreeItem::UnreadableFile { name, reason } => {
            let text = match entry_name(name, MAX_NAME_BYTES, index) {
                Ok(text) => text,
                Err(e) => {
                    return Err(e);
                },
            };
            match zip_start_file(writer, text, method, permissions) {
                Ok(()) => Err(ArchiveError::Read { index, reason: reason.clone() }),
                Err(words) => Err(refusal(index, words)),
            }
        },
        TreeItem::Other { name } => {
            let text = match entry_name(name, MAX_NAME_BYTES - 1, index) {
                Ok(text) => text,
                Err(e) => {
                    return Err(e);
                },
            };
            if name.len() == 0 {
                return Ok(());
            }
            match zip_add_directory(writer, text, permissions) {
                Ok(()) => Ok(()),
                Err(reason) => Err(refusal(index, reason)),
            }
        },
    }
}

/// Adds every item of a walk to a zip archive under construction.
///
/// Files are stored under their relative path, with their contents, with
/// `method` and `permissions`. Everything else that has a name becomes a
/// directory entry; the root, whose name is empty, is left out. Building
/// stops with an error at the first item that is a failure of the walk,
/// whose name is no valid UTF-8 or too long, that could not be read, or
/// that the writer refuses.
pub(crate) fn zip_dir(
    items: &Vec<TreeItem>,
    writer: &mut ZipBuilder,
    method: ZipMethod,
    permissions: u32,
) -> (r: Result<(), ArchiveError>)
    requires
        zip_intact(*old(writer)),
    ensures
        match r {
            Ok(()) => {
                &&& zip_intact(*final(writer))
                &&& zip_walk(zip_entries(*old(writer)), nodes(items@), method, permissions)
                    == Ok::<Seq<ZipEntry>, Failure>(zip_entries(*final(writer)))
            },
            Err(e) => zip_walk(zip_entries(*old(writer)), nodes(items@), method, permissions)
                == Err::<Seq<ZipEntry>, Failure>(e@),
        },
{
    let ghost walk = nodes(items@);
    let ghost base = zip_entries(*writer);
    let mut i: usize = 0;
    while i < items.len()
        invariant
            i <= items.len(),
            walk == nodes(items@),
            base == zip_entries(*old(writer)),
            zip_intact(*writer),
            zip_walk(base, walk.take(i as int), method, permissions) == Ok::<
                Seq<ZipEntry>,
                Failure,
            >(zip_entries(*writer)),
        decreases items.len() - i,
    {
        let ghost done = zip_entries(*writer);
        proof {
            assert(walk.take(i + 1).drop_last() == walk.take(i as int));
            assert(walk.take(i + 1).last() == items[i as int]@);
            assert(zip_walk(base, walk.take(i + 1), method, permissions) == zip_step(
                done,
                items[i as int]@,
                i as int,
                method,
                permissions,
            ));
        }
        match zip_item(&items[i], i, writer, method, permissions) {
            Ok(()) => {},
            Err(e) => {
                proof {
                    lemma_zip_failure_stays(base, walk, i + 1, method, permissions);
                }
                return Err(e);
            },
        }
        i += 1;
    }
    proof {
        assert(walk.take(i as int) == walk);
    }
    Ok(())
}

/// The zip archive of a walk.
///
/// Every file is stored under its relative path with its contents, with
/// deflate compression and the permissions [`ENTRY_PERMISSIONS`]; every
/// directory but the root is an entry of its own. The entries carry the
/// format's earliest date, not the time of writing.
pub fn compress_dir(items: &Vec<TreeItem>) -> (r: Result<Vec<u8>, ArchiveError>)
    ensures
        outcome(r) == zip_archive(nodes(items@)),
{
    let mut writer = zip_new();
    match zip_dir(items, &mut writer, ZipMethod::Deflated, ENTRY_PERMISSIONS) {
        Ok(()) => {},
        Err(e) => {
            return Err(e);
        },
    }
    match zip_finish(writer) {
        Ok(bytes) => Ok(bytes),
        Err(reason) => Err(ArchiveError::Finish { reason }),
    }
}

/// The tar entry that a node of the walk becomes: a file entry for a file
/// whose ownership, permissions and age are known, nothing for anything
/// else.
pub open spec fn tar_entry_of(node: TreeNode) -> Option<TarEntry> {
    match node {
        TreeNode::File { name, meta: Some(meta), data } => Some(
            TarEntry { name: decode_utf8(name), meta, data },
        ),
        _ => None,
    }
}

/// The entries that a walk becomes in a tar archive, in walk order.
pub open spec fn tar_plan(walk: Seq<TreeNode>) -> Seq<TarEntry>
    decreases walk.len(),
{
    if walk.len() == 0 {
        Seq::empty()
    } else {
        let earlier = tar_plan(walk.drop_last());
        match tar_entry_of(walk.last()) {
            Some(entry) => earlier.push(entry),
            None => earlier,
        }
    }
}

/// What one node of the walk does to a tar archive that holds `done`: the
/// entries afterwards, or the failure that ends the building.
///
/// A failure of the walk ends it, and so does a file that could not be
/// read. A file is appended if its name is text that the format records as
/// it stands and its ownership, permissions and age are known and fit the
/// header; otherwise it ends the building. What is not a regular file is
/// passed over, whatever its name. Where the writer refuses, its words are
/// the reason.
pub open spec fn tar_step(done: Seq<TarEntry>, node: TreeNode, index: int) -> Result<
    Seq<TarEntry>,
    Failure,
> {
    match node {
        TreeNode::WalkFailed { reason } => Err(Failure::Walk { index, reason }),
        TreeNode::File { name, meta, data } => if !valid_utf8(name) {
            Err(Failure::InvalidName { index })
        } else if !plain_name(name) {
            Err(Failure::UnfitName { index })
        } else {
            match meta {
                None => Err(Failure::MissingMeta { index }),
                Some(meta) => if !fits_header(meta) {
                    Err(Failure::UnfitMeta { index })
                } else {
                    match tar_append_file_result(done, decode_utf8(name), meta, data) {
                        Err(reason) => Err(Failure::Container { index, reason }),
                        Ok(_) => Ok(done.push(TarEntry { name: decode_utf8(name), meta, data })),
                    }
                },
            }
        },
        TreeNode::UnreadableFile { name, reason } => if !valid_utf8(name) {
            Err(Failure::InvalidName { index })
        } else {
            Err(Failure::Read { index, reason })
        },
        TreeNode::Other { .. } => Ok(done),
    }
}

/// What a walk does to a tar archive that holds `base`: the entries after
/// the last node, or the failure of the first node that fails.
pub open spec fn tar_walk(base: Seq<TarEntry>, walk: Seq<TreeNode>) -> Result<
    Seq<TarEntry>,
    Failure,
>
    decreases walk.len(),
{
    if walk.len() == 0 {
        Ok(base)
    } else {
        match tar_walk(base, walk.drop_last()) {
            Err(failure) => Err(failure),
            Ok(done) => tar_step(done, walk.last(), walk.len() - 1),
        }
    }
}

/// What [`compress_dir_zstd`] returns for a walk: the compressor's refusal
/// of the level, or the failure of the first node that fails, or the bytes
/// that the writers give for the entries of the walk at [`ZSTD_LEVEL`], or
/// their refusal to finish.
pub open spec fn tar_zstd_archive(walk: Seq<TreeNode>) -> Result<Seq<u8>, Failure> {
    match tar_zstd_new_result(ZSTD_LEVEL) {
        Err(reason) => Err(Failure::Setup { reason }),
        Ok(_) => match tar_walk(Seq::empty(), walk) {
            Err(failure) => Err(failure),
            Ok(entries) => match tar_zstd_finish_result(entries, ZSTD_LEVEL) {
                Ok(bytes) => Ok(bytes),
                Err(reason) => Err(Failure::Finish { reason }),
            },
        },
    }
}

/// A failure within the first `n` nodes is the failure of the whole walk.
proof fn lemma_tar_failure_stays(base: Seq<TarEntry>, walk: Seq<TreeNode>, n: int)
    requires
        0 <= n <= walk.len(),
        tar_walk(base, walk.take(n)) is Err,
    ensures
        tar_walk(base, walk) == tar_walk(base, walk.take(n)),
    decreases walk.len() - n,
{
    if n == walk.len() {
        assert(walk.take(n) == walk);
    } else {
        assert(walk.drop_last().take(n) == walk.take(n));
        lemma_tar_failure_stays(base, walk.drop_last(), n);
    }
}

/// A walk that goes through leaves the entries of its plan, in order,
/// behind those that were there.
pub proof fn lemma_tar_walk_follows_the_plan(base: Seq<TarEntry>, walk: Seq<TreeNode>)
    requires
        tar_walk(base, walk) is Ok,
    ensures
        tar_walk(base, walk) == Ok::<Seq<TarEntry>, Failure>(base + tar_plan(walk)),
    decreases walk.len(),
{
    if walk.len() == 0 {
        assert(base + tar_plan(walk) == base);
    } else {
        lemma_tar_walk_follows_the_plan(base, walk.drop_last());
        let earlier = tar_plan(walk.drop_last());
        match tar_entry_of(walk.last()) {
            Some(entry) => {
                assert((base + earlier).push(entry) == base + earlier.push(entry));
            },
            None => {},
        }
    }
}

/// What is handed to the tar writer for a file: its name as text and its
/// header fields, once both are found fit.
fn tar_file_header<'a>(name: &'a Vec<u8>, meta: &Option<FileMeta>, index: usize) -> (r: Result<
    (&'a str, FileMeta),
    ArchiveError,
>)
    ensures
        match r {
            Ok((text, fields)) => {
                &&& valid_utf8(name@)
                &&& plain_name(name@)
                &&& *meta == Some(fields)
                &&& fits_header(fields)
                &&& text@ == decode_utf8(name@)
                &&& text.spec_bytes() == name@
            },
            Err(e) => e@ == (if !valid_utf8(name@) {
                Failure::InvalidName { index: index as int }
            } else if !plain_name(name@) {
                Failure::UnfitName { index: index as int }
            } else if *meta is None {
                Failure::MissingMeta { index: index as int }
            } else {
                Failure::UnfitMeta { index: index as int }
            }) && !(valid_utf8(name@) && plain_name(name@) && *meta is Some && fits_header(
                meta->0,
            )),
        },
{
    let text = match text_of(name.as_slice()) {
        Some(text) => text,
        None => {
            return Err(ArchiveError::InvalidName { index });
        },
    };
    proof {
        decode_utf8_encode_utf8(name@);
    }
    if !is_plain_name(name) {
        return Err(ArchiveError::UnfitName { index });
    }
    match meta {
        None => Err(ArchiveError::MissingMeta { index }),
        Some(fields) => if meta_fits_header(fields) {
            Ok((text, *fields))
        } else {
            Err(ArchiveError::UnfitMeta { index })
        },
    }
}

/// The tar archive of a walk, compressed with zstd at [`ZSTD_LEVEL`].
///
/// Every regular file is stored under its relative path, with its contents
/// and with the ownership, permissions and age that the walk reported.
/// Directories are not recorded. The tar stream is ended before the
/// compressed stream is.
pub fn compress_dir_zstd(items: &Vec<TreeItem>) -> (r: Result<Vec<u8>, ArchiveError>)
    ensures
        outcome(r) == tar_zstd_archive(nodes(items@)),
{
    let mut builder = match tar_zstd_new(ZSTD_LEVEL) {
        Ok(builder) => builder,
        Err(reason) => {
            return Err(ArchiveError::Setup { reason });
        },
    };
    let ghost walk = nodes(items@);
    let ghost base = Seq::<TarEntry>::empty();
    let mut i: usize = 0;
    while i < items.len()
        invariant
            i <= items.len(),
            walk == nodes(items@),
            base == Seq::<TarEntry>::empty(),
            tar_zstd_new_result(ZSTD_LEVEL) is Ok,
            tar_level(builder) == ZSTD_LEVEL,
            tar_walk(base, walk.take(i as int)) == Ok::<Seq<TarEntry>, Failure>(
                tar_entries(builder),
            ),
        decreases items.len() - i,
    {
        proof {
            assert(walk.take(i + 1).drop_last() == walk.take(i as int));
            assert(walk.take(i + 1).last() == items[i as int]@);
        }
        let step: Result<(), ArchiveError> = match &items[i] {
            TreeItem::WalkFailed { reason } => Err(
                ArchiveError::Walk { index: i, reason: reason.clone() },
            ),
            TreeItem::File { name, meta, data } => match tar_file_header(name, meta, i) {
                Err(e) => Err(e),
                Ok((text, fields)) => match tar_append_file(
                    &mut builder,
                    text,
                    fields,
                    data.as_slice(),
                ) {
                    Ok(()) => Ok(()),
                    Err(reason) => Err(refusal(i, reason)),
                },
            },
            TreeItem::UnreadableFile { name, reason } => match text_of(name.as_slice()) {
                Some(_) => Err(ArchiveError::Read { index: i, reason: reason.clone() }),
                None => Err(ArchiveError::InvalidName { index: i }),
            },
            TreeItem::Other { .. } => Ok(()),
        };
        match step {
            Ok(()) => {},
            Err(e) => {
                proof {
                    lemma_tar_failure_stays(base, walk, i + 1);
                }
                return Err(e);
            },
        }
        i += 1;
    }
    proof {
        assert(walk.take(i as int) == walk);
    }
    match tar_zstd_finish(builder) {
        Ok(bytes) => Ok(bytes),
        Err(reason) => Err(ArchiveError::Finish { reason }),
    }
}

/// What [`compress`] returns for a walk and a format.
pub open spec fn archive_of(walk: Seq<TreeNode>, compression: Compression) -> Result<
    Seq<u8>,
    Failure,
> {
    match compression {
        Compression::Zip => zip_archive(walk),
        Compression::Zstd => tar_zstd_archive(walk),
    }
}

/// The archive of a walk in the chosen format: [`compress_dir`] for zip,
/// [`compress_dir_zstd`] for tar with zstd.
pub fn compress(items: &Vec<TreeItem>, compression: &Compression) -> (r: Result<
    Vec<u8>,
    ArchiveError,
>)
    ensures
        outcome(r) == archive_of(nodes(items@), *compression),
{
    match compression {
        Compression::Zip => compress_dir(items),
        Compression::Zstd => compress_dir_zstd(items),
    }
}

/// Every node of a walk that becomes a zip entry is in the plan.
pub proof fn lemma_zip_plan_holds_each_entry(
    walk: Seq<TreeNode>,
    method: ZipMethod,
    permissions: u32,
    i: int,
)
    requires
        0 <= i < walk.len(),
        zip_entry_of(walk[i], method, permissions) is Some,
    ensures
        zip_plan(walk, method, permissions).contains(zip_entry_of(walk[i], method, permissions)->0),
    decreases walk.len(),
{
    let earlier = zip_plan(walk.drop_last(), method, permissions);
    let entry = zip_entry_of(walk[i], method, permissions)->0;
    if i == walk.len() - 1 {
        assert(zip_plan(walk, method, permissions).last() == entry);
    } else {
        assert(walk.drop_last()[i] == walk[i]);
        lemma_zip_plan_holds_each_entry(walk.drop_last(), method, permissions, i);
        let k = choose|k: int| 0 <= k < earlier.len() && earlier[k] == entry;
        assert(zip_plan(walk, method, permissions)[k] == earlier[k]);
    }
}

/// Every entry of the zip plan is what some node of the walk becomes.
pub proof fn lemma_zip_plan_holds_nothing_else(
    walk: Seq<TreeNode>,
    method: ZipMethod,
    permissions: u32,
    entry: ZipEntry,
)
    requires
        zip_plan(walk, method, permissions).contains(entry),
    ensures
        exists|i: int|
            0 <= i < walk.len() && zip_entry_of(#[trigger] walk[i], method, permissions) == Some(
                entry,
            ),
    decreases walk.len(),
{
    if walk.len() > 0 {
        let plan = zip_plan(walk, method, permissions);
        let earlier = zip_plan(walk.drop_last(), method, permissions);
        let k = choose|k: int| 0 <= k < plan.len() && plan[k] == entry;
        if k < earlier.len() {
            assert(earlier[k] == entry);
            lemma_zip_plan_holds_nothing_else(walk.drop_last(), method, permissions, entry);
            let i = choose|i: int|
                0 <= i < walk.drop_last().len() && zip_entry_of(
                    #[trigger] walk.drop_last()[i],
                    method,
                    permissions,
                ) == Some(entry);
            assert(walk[i] == walk.drop_last()[i]);
        } else {
            assert(zip_entry_of(walk[walk.len() - 1], method, permissions) == Some(entry));
        }
    }
}

/// In a walk that goes through, every node went through.
pub proof fn lemma_zip_walk_took_each_node(
    base: Seq<ZipEntry>,
    walk: Seq<TreeNode>,
    method: ZipMethod,
    permissions: u32,
    i: int,
)
    requires
        zip_walk(base, walk, method, permissions) is Ok,
        0 <= i < walk.len(),
    ensures
        zip_walk(base, walk.take(i), method, permissions) is Ok,
        zip_step(
            zip_walk(base, walk.take(i), method, permissions)->Ok_0,
            walk[i],
            i,
            method,
            permissions,
        ) is Ok,
    decreases walk.len(),
{
    if i == walk.len() - 1 {
        assert(walk.take(i) == walk.drop_last());
    } else {
        assert(walk.drop_last().take(i) == walk.take(i));
        lemma_zip_walk_took_each_node(base, walk.drop_last(), method, permissions, i);
    }
}

/// Every node of a walk that becomes a tar entry is in the plan.
pub proof fn lemma_tar_plan_holds_each_entry(walk: Seq<TreeNode>, i: int)
    requires
        0 <= i < walk.len(),
        tar_entry_of(walk[i]) is Some,
    ensures
        tar_plan(walk).contains(tar_entry_of(walk[i])->0),
    decreases walk.len(),
{
    let earlier = tar_plan(walk.drop_last());
    if i == walk.len() - 1 {
        assert(tar_plan(walk).last() == tar_entry_of(walk[i])->0);
    } else {
        assert(walk.drop_last()[i] == walk[i]);
        lemma_tar_plan_holds_each_entry(walk.drop_last(), i);
        let k = choose|k: int| 0 <= k < earlier.len() && earlier[k] == tar_entry_of(walk[i])->0;
        assert(tar_plan(walk)[k] == earlier[k]);
    }
}

/// Every entry of the tar plan is what some node of the walk becomes.
pub proof fn lemma_tar_plan_holds_nothing_else(walk: Seq<TreeNode>, entry: TarEntry)
    requires
        tar_plan(walk).contains(entry),
    ensures
        exists|i: int| 0 <= i < walk.len() && tar_entry_of(#[trigger] walk[i]) == Some(entry),
    decreases walk.len(),
{
    if walk.len() > 0 {
        let plan = tar_plan(walk);
        let earlier = tar_plan(walk.drop_last());
        let k = choose|k: int| 0 <= k < plan.len() && plan[k] == entry;
        if k < earlier.len() {
            assert(earlier[k] == entry);
            lemma_tar_plan_holds_nothing_else(walk.drop_last(), entry);
            let i = choose|i: int|
                0 <= i < walk.drop_last().len() && tar_entry_of(#[trigger] walk.drop_last()[i])
                    == Some(entry);
            assert(walk[i] == walk.drop_last()[i]);
        } else {
            assert(tar_entry_of(walk[walk.len() - 1]) == Some(entry));
        }
    }
}

/// In a walk that goes through, every node went through.
pub proof fn lemma_tar_walk_took_each_node(base: Seq<TarEntry>, walk: Seq<TreeNode>, i: int)
    requires
        tar_walk(base, walk) is Ok,
        0 <= i < walk.len(),
    ensures
        tar_walk(base, walk.take(i)) is Ok,
        tar_step(tar_walk(base, walk.take(i))->Ok_0, walk[i], i) is Ok,
    decreases walk.len(),
{
    if i == walk.len() - 1 {
        assert(walk.take(i) == walk.drop_last());
    } else {
        assert(walk.drop_last().take(i) == walk.take(i));
        lemma_tar_walk_took_each_node(base, walk.drop_last(), i);
    }
}

/// Round trip, zip: where [`compress_dir`] succeeds, its bytes are what the
/// writer gives for the plan of the walk; every regular file of the walk
/// has a name that is text and is an entry of that plan, under its
/// relative path, deflated, with the very bytes that were read and with the
/// fixed permissions, whatever the file on disk had. The plan has no file
/// entry besides these.
pub proof fn law_zip_holds_every_file(
    walk: Seq<TreeNode>,
    bytes: Seq<u8>,
    i: int,
    name: Seq<u8>,
    meta: Option<FileMeta>,
    data: Seq<u8>,
)
    requires
        zip_archive(walk) == Ok::<Seq<u8>, Failure>(bytes),
        0 <= i < walk.len(),
        walk[i] == (TreeNode::File { name, meta, data }),
    ensures
        zip_finish_result(zip_plan(walk, ZipMethod::Deflated, ENTRY_PERMISSIONS)) == Ok::<
            Seq<u8>,
            Seq<char>,
        >(bytes),
        valid_utf8(name),
        zip_plan(walk, ZipMethod::Deflated, ENTRY_PERMISSIONS).contains(
            ZipEntry {
                name: decode_utf8(name),
                directory: false,
                method: ZipMethod::Deflated,
                permissions: 0o755,
                data,
            },
        ),
        forall|entry: ZipEntry|
            #[trigger] zip_plan(walk, ZipMethod::Deflated, ENTRY_PERMISSIONS).contains(entry)
                && !entry.directory ==> exists|k: int|
                0 <= k < walk.len() && (#[trigger] walk[k]) is File && zip_entry_of(
                    walk[k],
                    ZipMethod::Deflated,
                    ENTRY_PERMISSIONS,
                ) == Some(entry),
{
    let method = ZipMethod::Deflated;
    let empty = Seq::<ZipEntry>::empty();
    lemma_zip_walk_follows_the_plan(empty, walk, method, ENTRY_PERMISSIONS);
    assert(empty + zip_plan(walk, method, ENTRY_PERMISSIONS) == zip_plan(
        walk,
        method,
        ENTRY_PERMISSIONS,
    ));
    lemma_zip_walk_took_each_node(empty, walk, method, ENTRY_PERMISSIONS, i);
    assert(stored_permissions(ENTRY_PERMISSIONS) == 0o755) by {
        assert(0o755u32 & 0o777u32 == 0o755u32) by (bit_vector);
    }
    lemma_zip_plan_holds_each_entry(walk, method, ENTRY_PERMISSIONS, i);
    assert forall|entry: ZipEntry|
        #[trigger] zip_plan(walk, method, ENTRY_PERMISSIONS).contains(entry)
            && !entry.directory implies exists|k: int|
        0 <= k < walk.len() && (#[trigger] walk[k]) is File && zip_entry_of(
            walk[k],
            method,
            ENTRY_PERMISSIONS,
        ) == Some(entry) by {
        lemma_zip_plan_holds_nothing_else(walk, method, ENTRY_PERMISSIONS, entry);
        let k = choose|k: int|
            0 <= k < walk.len() && zip_entry_of(#[trigger] walk[k], method, ENTRY_PERMISSIONS)
                == Some(entry);
        assert(walk[k] is File);
    }
}

/// Round trip, tar: where [`compress_dir_zstd`] succeeds, its bytes are
/// what the writers give for the plan of the walk at [`ZSTD_LEVEL`]; every
/// regular file of the walk has a name that the format records as it
/// stands and is an entry of that plan, under its relative path, with the
/// very bytes that were read and with the ownership, permissions and age
/// that the walk reported. The plan has no entry besides these.
pub proof fn law_tar_holds_every_file(
    walk: Seq<TreeNode>,
    bytes: Seq<u8>,
    i: int,
    name: Seq<u8>,
    meta: Option<FileMeta>,
    data: Seq<u8>,
)
    requires
        tar_zstd_archive(walk) == Ok::<Seq<u8>, Failure>(bytes),
        0 <= i < walk.len(),
        walk[i] == (TreeNode::File { name, meta, data }),
    ensures
        tar_zstd_finish_result(tar_plan(walk), ZSTD_LEVEL) == Ok::<Seq<u8>, Seq<char>>(bytes),
        valid_utf8(name),
        plain_name(name),
        meta is Some,
        tar_plan(walk).contains(TarEntry { name: decode_utf8(name), meta: meta->0, data }),
        forall|entry: TarEntry| #[trigger]
            tar_plan(walk).contains(entry) ==> exists|k: int|
                0 <= k < walk.len() && (#[trigger] walk[k]) is File && tar_entry_of(walk[k])
                    == Some(entry),
{
    let empty = Seq::<TarEntry>::empty();
    lemma_tar_walk_follows_the_plan(empty, walk);
    assert(empty + tar_plan(walk) == tar_plan(walk));
    lemma_tar_walk_took_each_node(empty, walk, i);
    lemma_tar_plan_holds_each_entry(walk, i);
    assert forall|entry: TarEntry| #[trigger] tar_plan(walk).contains(entry) implies exists|k: int|
        0 <= k < walk.len() && (#[trigger] walk[k]) is File && tar_entry_of(walk[k]) == Some(
            entry,
        ) by {
        lemma_tar_plan_holds_nothing_else(walk, entry);
        let k = choose|k: int| 0 <= k < walk.len() && tar_entry_of(#[trigger] walk[k]) == Some(entry);
        assert(walk[k] is File);
    }
}

/// An archive is owed whenever nothing stands in the way: [`compress`]
/// succeeds exactly where the writer can be set up, every node of the walk
/// goes through, and the writer finishes.
pub proof fn law_success_is_owed(walk: Seq<TreeNode>)
    ensures
        zip_archive(walk) is Ok <==> zip_walk(
            Seq::empty(),
            walk,
            ZipMethod::Deflated,
            ENTRY_PERMISSIONS,
        ) is Ok && zip_finish_result(
            zip_plan(walk, ZipMethod::Deflated, ENTRY_PERMISSIONS),
        ) is Ok,
        tar_zstd_archive(walk) is Ok <==> tar_zstd_new_result(ZSTD_LEVEL) is Ok && tar_walk(
            Seq::empty(),
            walk,
        ) is Ok && tar_zstd_finish_result(tar_plan(walk), ZSTD_LEVEL) is Ok,
{
    let zips = Seq::<ZipEntry>::empty();
    if zip_walk(zips, walk, ZipMethod::Deflated, ENTRY_PERMISSIONS) is Ok {
        lemma_zip_walk_follows_the_plan(zips, walk, ZipMethod::Deflated, ENTRY_PERMISSIONS);
        assert(zips + zip_plan(walk, ZipMethod::Deflated, ENTRY_PERMISSIONS) == zip_plan(
            walk,
            ZipMethod::Deflated,
            ENTRY_PERMISSIONS,
        ));
    }
    let tars = Seq::<TarEntry>::empty();
    if tar_walk(tars, walk) is Ok {
        lemma_tar_walk_follows_the_plan(tars, walk);
        assert(tars + tar_plan(walk) == tar_plan(walk));
    }
}

} // verus!
