//! The zip container writer of the `zip` crate, writing into memory.
//!
//! Nothing here is proved. Each function states what the crate's writer
//! does, over the list of entries that the archive under construction
//! holds. Whether the writer takes a call, and the words of its refusal, are
//! given a name each: the writer works in memory, so both depend on the
//! entries so far and on the arguments alone.

use crate::answer::{told, told_bytes};
use std::io::Cursor;
use std::io::Write;
use vstd::prelude::*;
use zip::write::SimpleFileOptions;
use zip::CompressionMethod;
use zip::ZipWriter;

verus! {

/// A zip archive under construction in memory: the crate's `ZipWriter`
/// over a byte buffer.
#[verifier::external_body]
pub struct ZipBuilder {
    writer: ZipWriter<Cursor<Vec<u8>>>,
}

/// How the contents of a zip entry are stored.
#[derive(Clone, Copy, Debug, PartialEq, Eq, Structural)]
pub enum ZipMethod {
    /// As they are.
    Stored,
    /// Compressed with deflate.
    Deflated,
}

/// One entry of a zip archive under construction.
pub struct ZipEntry {
    /// The name under which the entry is stored.
    pub name: Seq<char>,
    /// Whether it is a directory entry.
    pub directory: bool,
    /// How its contents are stored.
    pub method: ZipMethod,
    /// The permission bits stored with it.
    pub permissions: u32,
    /// The bytes written to it so far; empty for a directory.
    pub data: Seq<u8>,
}

/// The entries that a writer has accepted so far, oldest first.
pub uninterp spec fn zip_entries(writer: ZipBuilder) -> Seq<ZipEntry>;

/// Whether every call on the writer so far has succeeded.
pub uninterp spec fn zip_intact(writer: ZipBuilder) -> bool;

/// What `ZipWriter::start_file` answers when a file of the given name,
/// method and permissions is started in an archive that holds `entries`:
/// nothing, or the words of its refusal.
pub uninterp spec fn zip_start_file_result(
    entries: Seq<ZipEntry>,
    name: Seq<char>,
    method: ZipMethod,
    permissions: u32,
) -> Result<(), Seq<char>>;

/// What writing `data` to the last entry of `entries` answers: nothing, or
/// the words of the refusal.
pub uninterp spec fn zip_write_all_result(entries: Seq<ZipEntry>, data: Seq<u8>) -> Result<
    (),
    Seq<char>,
>;

/// What `ZipWriter::add_directory` answers when a directory of the given
/// name and permissions is added to an archive that holds `entries`.
pub uninterp spec fn zip_add_directory_result(
    entries: Seq<ZipEntry>,
    name: Seq<char>,
    permissions: u32,
) -> Result<(), Seq<char>>;

/// What `ZipWriter::finish` answers for an archive that holds `entries`:
/// the bytes of the finished archive, or the words of its refusal.
pub uninterp spec fn zip_finish_result(entries: Seq<ZipEntry>) -> Result<Seq<u8>, Seq<char>>;

/// The longest entry name, in bytes, that the container can record.
pub const MAX_NAME_BYTES: usize = 65535;

/// The most bytes that one entry can hold.
pub const MAX_ENTRY_BYTES: u64 = 0xffff_ffff;

/// Whether some entry is stored under `name`.
pub open spec fn holds_name(entries: Seq<ZipEntry>, name: Seq<char>) -> bool {
    exists|i: int| 0 <= i < entries.len() && (#[trigger] entries[i]).name == name
}

/// The name under which a directory is stored: its name, closed by a slash
/// unless it ends in a slash or a backslash already.
pub open spec fn directory_entry_name(name: Seq<char>) -> Seq<char> {
    if name.len() > 0 && (name.last() == '/' || name.last() == '\\') {
        name
    } else {
        name.push('/')
    }
}

/// `ZipWriter::new` on an empty in-memory buffer: a writer that holds no
/// entry.
#[verifier::external_body]
pub(crate) fn zip_new() -> (writer: ZipBuilder)
    ensures
        zip_intact(writer),
        zip_entries(writer) == Seq::<ZipEntry>::empty(),
{
    ZipBuilder { writer: ZipWriter::new(Cursor::new(Vec::new())) }
}

/// `ZipWriter::start_file` with the given method and unix permissions; a
/// refusal comes back in the words of its `Display`. A name that the
/// archive holds already is refused. On success the archive has one more
/// entry: a file of that name and method, with the low nine bits of
/// `permissions` and no data yet.
#[verifier::external_body]
pub(crate) fn zip_start_file(
    writer: &mut ZipBuilder,
    name: &str,
    method: ZipMethod,
    permissions: u32,
) -> (r: Result<(), String>)
    requires
        zip_intact(*old(writer)),
        name.len() <= MAX_NAME_BYTES,
    ensures
        told(r) == zip_start_file_result(zip_entries(*old(writer)), name@, method, permissions),
        holds_name(zip_entries(*old(writer)), name@) ==> r is Err,
        r is Ok ==> zip_intact(*final(writer)) && zip_entries(*final(writer)) == zip_entries(
            *old(writer),
        ).push(
            ZipEntry {
                name: name@,
                directory: false,
                method,
                permissions: permissions & 0o777,
                data: Seq::empty(),
            },
        ),
{
    let chosen = match method {
        ZipMethod::Stored => CompressionMethod::Stored,
        ZipMethod::Deflated => CompressionMethod::Deflated,
    };
    let options = SimpleFileOptions::default().compression_method(chosen).unix_permissions(
        permissions,
    );
    match writer.writer.start_file(name, options) {
        Ok(()) => Ok(()),
        Err(e) => Err(e.to_string()),
    }
}

/// `Write::write_all` on the writer: the bytes go to the file entry that
/// was started last; a refusal comes back in the words of its `Display`.
/// An entry that would grow beyond [`MAX_ENTRY_BYTES`] is refused. On
/// success that entry's data has grown by `data`, and nothing else has
/// changed.
#[verifier::external_body]
pub(crate) fn zip_write_all(writer: &mut ZipBuilder, data: &[u8]) -> (r: Result<(), String>)
    requires
        zip_intact(*old(writer)),
        zip_entries(*old(writer)).len() > 0,
        !zip_entries(*old(writer)).last().directory,
    ensures
        told(r) == zip_write_all_result(zip_entries(*old(writer)), data@),
        zip_entries(*old(writer)).last().data.len() + data@.len() > MAX_ENTRY_BYTES ==> r is Err,
        r is Ok ==> zip_intact(*final(writer)) && zip_entries(*final(writer)) == zip_entries(
            *old(writer),
        ).drop_last().push(
            ZipEntry {
                data: zip_entries(*old(writer)).last().data + data@,
                ..zip_entries(*old(writer)).last()
            },
        ),
{
    match writer.writer.write_all(data) {
        Ok(()) => Ok(()),
        Err(e) => Err(e.to_string()),
    }
}

/// `ZipWriter::add_directory` with the given unix permissions; a refusal
/// comes back in the words of its `Display`. A name that the archive holds
/// already is refused. On success the archive has one more entry: a
/// directory, stored under `name` closed by a slash, uncompressed whatever
/// was asked, with the low nine bits of `permissions` and no data.
#[verifier::external_body]
pub(crate) fn zip_add_directory(writer: &mut ZipBuilder, name: &str, permissions: u32) -> (r:
    Result<(), String>)
    requires
        zip_intact(*old(writer)),
        name.len() < MAX_NAME_BYTES,
    ensures
        told(r) == zip_add_directory_result(zip_entries(*old(writer)), name@, permissions),
        holds_name(zip_entries(*old(writer)), directory_entry_name(name@)) ==> r is Err,
        r is Ok ==> zip_intact(*final(writer)) && zip_entries(*final(writer)) == zip_entries(
            *old(writer),
        ).push(
            ZipEntry {
                name: directory_entry_name(name@),
                directory: true,
                method: ZipMethod::Stored,
                permissions: permissions & 0o777,
                data: Seq::empty(),
            },
        ),
{
    let options = SimpleFileOptions::default().unix_permissions(permissions);
    match writer.writer.add_directory(name, options) {
        Ok(()) => Ok(()),
        Err(e) => Err(e.to_string()),
    }
}

/// `ZipWriter::finish`: closes the last entry, writes the central directory
/// and hands back the buffer; a refusal comes back in the words of its
/// `Display`.
#[verifier::external_body]
pub(crate) fn zip_finish(writer: ZipBuilder) -> (r: Result<Vec<u8>, String>)
    requires
        zip_intact(writer),
    ensures
        told_bytes(r) == zip_finish_result(zip_entries(writer)),
{
    match writer.writer.finish() {
        Ok(cursor) => Ok(cursor.into_inner()),
        Err(e) => Err(e.to_string()),
    }
}

} // verus!
