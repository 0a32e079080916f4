//! What a walk over a source tree hands to the archive builders.
//!
//! The caller walks the tree and reads the files. Each thing it meets
//! becomes one [`TreeItem`], in walk order, named by its path relative to
//! the source root as raw bytes; the root itself has the empty name. What
//! went wrong on the way is an item too, so that the builders fail at the
//! same point of the walk at which the trouble arose.

use vstd::prelude::*;
use vstd::utf8::{decode_utf8, valid_utf8};

verus! {

/// Ownership, permissions and age of a file, as the file system reports
/// them.
#[derive(Clone, Copy, Debug, PartialEq, Eq, Structural)]
pub struct FileMeta {
    pub mode: u32,
    pub uid: u64,
    pub gid: u64,
    pub modified: u64,
}

/// One step of a walk over a source tree.
#[derive(Debug)]
pub enum TreeItem {
    /// A regular file and its contents, with its ownership, permissions and
    /// age where the file system gave them.
    File { name: Vec<u8>, meta: Option<FileMeta>, data: Vec<u8> },
    /// A regular file that could not be opened or read.
    UnreadableFile { name: Vec<u8>, reason: String },
    /// A directory, or anything else that is not a regular file.
    Other { name: Vec<u8> },
    /// The walk itself failed at this point.
    WalkFailed { reason: String },
}

/// The mathematical value of a [`TreeItem`].
pub enum TreeNode {
    File { name: Seq<u8>, meta: Option<FileMeta>, data: Seq<u8> },
    UnreadableFile { name: Seq<u8>, reason: Seq<char> },
    Other { name: Seq<u8> },
    WalkFailed { reason: Seq<char> },
}

impl View for TreeItem {
    type V = TreeNode;

    open spec fn view(&self) -> TreeNode {
        match self {
            TreeItem::File { name, meta, data } => TreeNode::File {
                name: name@,
                meta: *meta,
                data: data@,
            },
            TreeItem::UnreadableFile { name, reason } => TreeNode::UnreadableFile {
                name: name@,
                reason: reason@,
            },
            TreeItem::Other { name } => TreeNode::Other { name: name@ },
            TreeItem::WalkFailed { reason } => TreeNode::WalkFailed { reason: reason@ },
        }
    }
}

/// The walk that a vector of items stands for.
pub open spec fn nodes(items: Seq<TreeItem>) -> Seq<TreeNode> {
    Seq::new(items.len(), |i: int| items[i]@)
}

impl TreeNode {
    /// The relative path of the node; empty for a failure of the walk.
    pub open spec fn name(self) -> Seq<u8> {
        match self {
            TreeNode::File { name, .. } => name,
            TreeNode::UnreadableFile { name, .. } => name,
            TreeNode::Other { name } => name,
            TreeNode::WalkFailed { .. } => Seq::empty(),
        }
    }

    /// The relative path as text, where it is valid UTF-8.
    pub open spec fn text(self) -> Seq<char> {
        decode_utf8(self.name())
    }

    /// Whether the relative path can be written as text.
    pub open spec fn has_text(self) -> bool {
        valid_utf8(self.name())
    }
}

/// The byte of the path separator.
pub const SLASH: u8 = 0x2f;

/// The byte of a dot.
pub const DOT: u8 = 0x2e;

/// Whether a path component starts at position `i` of `name`.
pub open spec fn starts_component(name: Seq<u8>, i: int) -> bool {
    i == 0 || name[i - 1] == SLASH
}

/// Whether a path component ends just before position `i` of `name`.
pub open spec fn ends_component(name: Seq<u8>, i: int) -> bool {
    i == name.len() || name[i] == SLASH
}

/// Whether something at position `i` keeps `name` from being recorded as
/// it stands: a NUL byte; a slash that opens the name, follows another or
/// closes the name; a component that is a single dot or two dots.
pub open spec fn odd_at(name: Seq<u8>, i: int) -> bool {
    ||| name[i] == 0
    ||| name[i] == SLASH && (starts_component(name, i) || i == name.len() - 1)
    ||| name[i] == DOT && starts_component(name, i) && ends_component(name, i + 1)
    ||| name[i] == DOT && starts_component(name, i) && i + 1 < name.len() && name[i + 1] == DOT
        && ends_component(name, i + 2)
}

/// A relative path that an archive records byte for byte: not empty, not
/// absolute, without NUL bytes, without empty components or a closing
/// slash, and without components that are `.` or `..`.
pub open spec fn plain_name(name: Seq<u8>) -> bool {
    name.len() > 0 && forall|i: int| 0 <= i < name.len() ==> !odd_at(name, i)
}

/// The least mode that the mode slot of a tar header cannot hold.
pub const MODE_LIMIT: u32 = 0o10000000;

/// The least owner or group number that its slot of a tar header cannot
/// hold.
pub const OWNER_LIMIT: u64 = 0x8000_0000_0000_0000;

/// Whether the slots of a tar header hold the mode, owner and group in
/// full.
pub open spec fn fits_header(meta: FileMeta) -> bool {
    meta.mode < MODE_LIMIT && meta.uid < OWNER_LIMIT && meta.gid < OWNER_LIMIT
}

fn is_odd_at(name: &Vec<u8>, i: usize) -> (odd: bool)
    requires
        i < name.len(),
    ensures
        odd == odd_at(name@, i as int),
{
    let byte: u8 = name[i];
    let starts = i == 0 || name[i - 1] == SLASH;
    if byte == 0 {
        true
    } else if byte == SLASH {
        starts || i == name.len() - 1
    } else if byte == DOT && starts {
        if i + 1 == name.len() || name[i + 1] == SLASH {
            true
        } else {
            name[i + 1] == DOT && (i + 2 == name.len() || name[i + 2] == SLASH)
        }
    } else {
        false
    }
}

/// Whether `name` is a relative path that an archive records byte for
/// byte.
pub fn is_plain_name(name: &Vec<u8>) -> (plain: bool)
    ensures
        plain == plain_name(name@),
{
    if name.len() == 0 {
        return false;
    }
    let mut i: usize = 0;
    while i < name.len()
        invariant
            i <= name.len(),
            forall|j: int| 0 <= j < i ==> !odd_at(name@, j),
        decreases name.len() - i,
    {
        if is_odd_at(name, i) {
            return false;
        }
        i += 1;
    }
    true
}

/// Whether the slots of a tar header hold the mode, owner and group of
/// `meta` in full.
pub fn meta_fits_header(meta: &FileMeta) -> (fits: bool)
    ensures
        fits == fits_header(*meta),
{
    meta.mode < MODE_LIMIT && meta.uid < OWNER_LIMIT && meta.gid < OWNER_LIMIT
}

/// `std::str::from_utf8`: the text that the bytes encode, if they are valid
/// UTF-8, and nothing otherwise.
#[verifier::external_body]
pub(crate) fn text_of(bytes: &[u8]) -> (text: Option<&str>)
    ensures
        text is Some <==> valid_utf8(bytes@),
        text matches Some(s) ==> s@ == decode_utf8(bytes@),
{
    match std::str::from_utf8(bytes) {
        Ok(s) => Some(s),
        Err(_) => None,
    }
}

} // verus!
