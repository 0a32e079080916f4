//! The tar writer of the `tar` crate over the streaming compressor of the
//! `zstd` crate, writing into memory.
//!
//! Nothing here is proved. Each function states what the two crates do,
//! over the list of entries that the archive under construction holds.
//! Whether a call is taken, and the words of a refusal, are given a name
//! each: the writers work in memory, so both depend on the entries so far
//! and on the arguments alone.

use crate::tree::{fits_header, plain_name, FileMeta};
use crate::answer::{told, told_bytes};
use tar::{Builder, EntryType, Header};
use vstd::prelude::*;
use vstd::string::StringSliceAdditionalSpecFns;
use zstd::stream::write::Encoder;

verus! {

/// A compressed tar archive under construction in memory: the `tar`
/// crate's `Builder` over the `zstd` crate's `Encoder` over a byte buffer.
#[verifier::external_body]
pub struct TarZstdBuilder {
    builder: Builder<Encoder<'static, Vec<u8>>>,
}

/// One entry of a tar archive: a regular file.
pub struct TarEntry {
    /// The path under which the file is stored.
    pub name: Seq<char>,
    /// The ownership, permissions and age in its header.
    pub meta: FileMeta,
    /// Its contents.
    pub data: Seq<u8>,
}

/// The entries that a builder has accepted so far, oldest first.
pub uninterp spec fn tar_entries(builder: TarZstdBuilder) -> Seq<TarEntry>;

/// The compression level that a builder was made with.
pub uninterp spec fn tar_level(builder: TarZstdBuilder) -> i32;

/// What `Encoder::new` answers for a compression level: nothing, or the
/// words of its refusal.
pub uninterp spec fn tar_zstd_new_result(level: i32) -> Result<(), Seq<char>>;

/// What `Builder::append_data` answers when a file of the given name,
/// header fields and contents is added to an archive that holds `entries`.
pub uninterp spec fn tar_append_file_result(
    entries: Seq<TarEntry>,
    name: Seq<char>,
    meta: FileMeta,
    data: Seq<u8>,
) -> Result<(), Seq<char>>;

/// What ending both streams answers for an archive that holds `entries`,
/// compressed at `level`: the bytes of the finished archive, or the words
/// of the refusal.
pub uninterp spec fn tar_zstd_finish_result(entries: Seq<TarEntry>, level: i32) -> Result<
    Seq<u8>,
    Seq<char>,
>;

/// `Encoder::new` on an empty in-memory buffer, at the given level, and
/// `Builder::new` around it: a builder that holds no entry. A refusal of
/// the level comes back in the words of its `Display`.
#[verifier::external_body]
pub(crate) fn tar_zstd_new(level: i32) -> (r: Result<TarZstdBuilder, String>)
    ensures
        match r {
            Ok(builder) => {
                &&& tar_zstd_new_result(level) is Ok
                &&& tar_entries(builder) == Seq::<TarEntry>::empty()
                &&& tar_level(builder) == level
            },
            Err(words) => tar_zstd_new_result(level) == Err::<(), Seq<char>>(words@),
        },
{
    match Encoder::new(Vec::new(), level) {
        Ok(encoder) => Ok(TarZstdBuilder { builder: Builder::new(encoder) }),
        Err(e) => Err(e.to_string()),
    }
}

/// `Builder::append_data` with a GNU header for a regular file of the
/// length of `data`, with the mode, owner, group and modification time of
/// `meta`; a refusal comes back in the words of its `Display`. The name is
/// one that the crate records as it stands, and the header fields are ones
/// that their slots hold in full. On success the archive has one more
/// entry: that file, under `name`, with `meta` in its header and `data` as
/// its contents.
#[verifier::external_body]
pub(crate) fn tar_append_file(
    builder: &mut TarZstdBuilder,
    name: &str,
    meta: FileMeta,
    data: &[u8],
) -> (r: Result<(), String>)
    requires
        plain_name(name.spec_bytes()),
        fits_header(meta),
    ensures
        told(r) == tar_append_file_result(tar_entries(*old(builder)), name@, meta, data@),
        tar_level(*final(builder)) == tar_level(*old(builder)),
        r is Ok ==> tar_entries(*final(builder)) == tar_entries(*old(builder)).push(
            TarEntry { name: name@, meta, data: data@ },
        ),
{
    let mut header = Header::new_gnu();
    header.set_size(data.len() as u64);
    header.set_mode(meta.mode);
    header.set_uid(meta.uid);
    header.set_gid(meta.gid);
    header.set_mtime(meta.modified);
    header.set_entry_type(EntryType::Regular);
    match builder.builder.append_data(&mut header, name, data) {
        Ok(()) => Ok(()),
        Err(e) => Err(e.to_string()),
    }
}

/// `Builder::into_inner`, which ends the tar stream, and then
/// `Encoder::finish`, which ends the compressed stream and hands back the
/// buffer; a refusal of either comes back in the words of its `Display`.
#[verifier::external_body]
pub(crate) fn tar_zstd_finish(builder: TarZstdBuilder) -> (r: Result<Vec<u8>, String>)
    ensures
        told_bytes(r) == tar_zstd_finish_result(tar_entries(builder), tar_level(builder)),
{
    let encoder = match builder.builder.into_inner() {
        Ok(encoder) => encoder,
        Err(e) => return Err(e.to_string()),
    };
    match encoder.finish() {
        Ok(bytes) => Ok(bytes),
        Err(e) => Err(e.to_string()),
    }
}

} // verus!
