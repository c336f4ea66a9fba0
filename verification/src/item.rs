//! One captured file, directory or symlink inside an entry.

use vstd::prelude::*;
use crate::search::{contains_seq, lower_of, contains_ci};

verus! {

/// What kind of filesystem object an item is.
#[derive(Debug, Clone, Copy, PartialEq, Eq, Structural)]
pub enum ItemKind {
    File,
    Directory,
    Symlink,
}

/// One captured filesystem object: where it came from, where it lies
/// inside the entry's data subtree, and the facts snapshotted before any
/// mutation.
#[derive(Debug)]
pub struct Item {
    /// The path the item was taken from, relative to the working directory.
    pub original_path: String,
    /// The path of the item inside the entry's data subtree.
    pub stashed_path: String,
    pub kind: ItemKind,
    pub size_bytes: u64,
    /// Unix permission bits, snapshotted before relocation.
    pub permissions: u32,
    /// Modification time in seconds since the Unix epoch.
    pub modified: i64,
    /// Content hash, present for regular files when hashing was requested.
    pub hash: Option<String>,
}

/// The mathematical content of an [`Item`].
pub ghost struct ItemView {
    pub original_path: Seq<char>,
    pub stashed_path: Seq<char>,
    pub kind: ItemKind,
    pub size_bytes: u64,
    pub permissions: u32,
    pub modified: i64,
    pub hash: Option<Seq<char>>,
}

/// The view of an optional string.
pub open spec fn opt_view(o: Option<String>) -> Option<Seq<char>> {
    match o {
        Some(s) => Some(s@),
        None => None,
    }
}

impl View for Item {
    type V = ItemView;

    open spec fn view(&self) -> ItemView {
        ItemView {
            original_path: self.original_path@,
            stashed_path: self.stashed_path@,
            kind: self.kind,
            size_bytes: self.size_bytes,
            permissions: self.permissions,
            modified: self.modified,
            hash: opt_view(self.hash),
        }
    }
}

/// Clones an optional string, keeping its characters.
pub fn clone_opt_string(o: &Option<String>) -> (r: Option<String>)
    ensures
        opt_view(r) == opt_view(*o),
{
    match o {
        Some(s) => Some(s.clone()),
        None => None,
    }
}

impl Clone for Item {
    fn clone(&self) -> (r: Self)
        ensures
            r@ == self@,
    {
        Item {
            original_path: self.original_path.clone(),
            stashed_path: self.stashed_path.clone(),
            kind: self.kind,
            size_bytes: self.size_bytes,
            permissions: self.permissions,
            modified: self.modified,
            hash: clone_opt_string(&self.hash),
        }
    }
}

impl Item {
    /// An item from snapshotted facts.
    pub fn new(
        original_path: String,
        stashed_path: String,
        kind: ItemKind,
        size_bytes: u64,
        permissions: u32,
        modified: i64,
        hash: Option<String>,
    ) -> (r: Item)
        ensures
            r@ == (ItemView {
                original_path: original_path@,
                stashed_path: stashed_path@,
                kind,
                size_bytes,
                permissions,
                modified,
                hash: opt_view(hash),
            }),
    {
        Item { original_path, stashed_path, kind, size_bytes, permissions, modified, hash }
    }

    /// Whether the pattern occurs in the item's original path, ignoring
    /// case.
    pub fn matches_pattern(&self, pattern: &str) -> (r: bool)
        ensures
            r == contains_seq(lower_of(self.original_path@), lower_of(pattern@)),
    {
        contains_ci(self.original_path.as_str(), pattern)
    }
}

} // verus!
