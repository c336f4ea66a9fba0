//! Journal records: what the engine did, described for history listings.

use vstd::prelude::*;
use crate::ids::{Identity, id_chars, fresh_identity};
use crate::clock::now_timestamp;
use crate::text::{dec_rep, dec_rep_signed, u64_string, i64_string};
use crate::item::opt_view;
use vstd::string::StringExecFns;

verus! {

/// The tagged variants of an executed operation, each carrying the minimum
/// context needed to describe itself.
#[derive(Debug)]
pub enum OperationKind {
    Push { entry_id: Identity, file_count: usize },
    Copy { entry_id: Identity, file_count: usize },
    Pop { entry_id: Identity, destination: String },
    Peek { entry_id: Identity, destination: String },
    Drop { entry_id: Identity, deleted: bool },
    Dump { entry_count: usize, deleted: bool },
    Rename { entry_id: Identity, old_name: String, new_name: String },
    Clean { removed_count: usize, days: i64 },
    Import { path: String, entry_count: usize },
}

/// The mathematical content of an [`OperationKind`].
pub ghost enum OpKindView {
    Push { entry_id: Identity, file_count: int },
    Copy { entry_id: Identity, file_count: int },
    Pop { entry_id: Identity, destination: Seq<char> },
    Peek { entry_id: Identity, destination: Seq<char> },
    Drop { entry_id: Identity, deleted: bool },
    Dump { entry_count: int, deleted: bool },
    Rename { entry_id: Identity, old_name: Seq<char>, new_name: Seq<char> },
    Clean { removed_count: int, days: i64 },
    Import { path: Seq<char>, entry_count: int },
}

impl View for OperationKind {
    type V = OpKindView;

    open spec fn view(&self) -> OpKindView {
        match self {
            OperationKind::Push { entry_id, file_count } => OpKindView::Push {
                entry_id: *entry_id,
                file_count: *file_count as int,
            },
            OperationKind::Copy { entry_id, file_count } => OpKindView::Copy {
                entry_id: *entry_id,
                file_count: *file_count as int,
            },
            OperationKind::Pop { entry_id, destination } => OpKindView::Pop {
                entry_id: *entry_id,
                destination: destination@,
            },
            OperationKind::Peek { entry_id, destination } => OpKindView::Peek {
                entry_id: *entry_id,
                destination: destination@,
            },
            OperationKind::Drop { entry_id, deleted } => OpKindView::Drop {
                entry_id: *entry_id,
                deleted: *deleted,
            },
            OperationKind::Dump { entry_count, deleted } => OpKindView::Dump {
                entry_count: *entry_count as int,
                deleted: *deleted,
            },
            OperationKind::Rename { entry_id, old_name, new_name } => OpKindView::Rename {
                entry_id: *entry_id,
                old_name: old_name@,
                new_name: new_name@,
            },
            OperationKind::Clean { removed_count, days } => OpKindView::Clean {
                removed_count: *removed_count as int,
                days: *days,
            },
            OperationKind::Import { path, entry_count } => OpKindView::Import {
                path: path@,
                entry_count: *entry_count as int,
            },
        }
    }
}

impl Clone for OperationKind {
    fn clone(&self) -> (r: Self)
        ensures
            r@ == self@,
    {
        match self {
            OperationKind::Push { entry_id, file_count } => OperationKind::Push {
                entry_id: *entry_id,
                file_count: *file_count,
            },
            OperationKind::Copy { entry_id, file_count } => OperationKind::Copy {
                entry_id: *entry_id,
                file_count: *file_count,
            },
            OperationKind::Pop { entry_id, destination } => OperationKind::Pop {
                entry_id: *entry_id,
                destination: destination.clone(),
            },
            OperationKind::Peek { entry_id, destination } => OperationKind::Peek {
                entry_id: *entry_id,
                destination: destination.clone(),
            },
            OperationKind::Drop { entry_id, deleted } => OperationKind::Drop {
                entry_id: *entry_id,
                deleted: *deleted,
            },
            OperationKind::Dump { entry_count, deleted } => OperationKind::Dump {
                entry_count: *entry_count,
                deleted: *deleted,
            },
            OperationKind::Rename { entry_id, old_name, new_name } => OperationKind::Rename {
                entry_id: *entry_id,
                old_name: old_name.clone(),
                new_name: new_name.clone(),
            },
            OperationKind::Clean { removed_count, days } => OperationKind::Clean {
                removed_count: *removed_count,
                days: *days,
            },
            OperationKind::Import { path, entry_count } => OperationKind::Import {
                path: path.clone(),
                entry_count: *entry_count,
            },
        }
    }
}

/// One journal record: an identity of its own, the operation, and when it
/// happened.
#[derive(Debug)]
pub struct Operation {
    pub id: Identity,
    pub kind: OperationKind,
    /// Seconds since the Unix epoch.
    pub timestamp: i64,
}

/// The mathematical content of an [`Operation`].
pub ghost struct OpView {
    pub id: Identity,
    pub kind: OpKindView,
    pub timestamp: i64,
}

impl View for Operation {
    type V = OpView;

    open spec fn view(&self) -> OpView {
        OpView { id: self.id, kind: self.kind@, timestamp: self.timestamp }
    }
}

impl Clone for Operation {
    fn clone(&self) -> (r: Self)
        ensures
            r@ == self@,
    {
        Operation { id: self.id, kind: self.kind.clone(), timestamp: self.timestamp }
    }
}

/// The identity of the entry a kind speaks of, if it speaks of one.
pub open spec fn kind_entry_id(k: OpKindView) -> Option<Identity> {
    match k {
        OpKindView::Push { entry_id, .. } => Some(entry_id),
        OpKindView::Copy { entry_id, .. } => Some(entry_id),
        OpKindView::Pop { entry_id, .. } => Some(entry_id),
        OpKindView::Peek { entry_id, .. } => Some(entry_id),
        OpKindView::Drop { entry_id, .. } => Some(entry_id),
        OpKindView::Rename { entry_id, .. } => Some(entry_id),
        OpKindView::Dump { .. } => None,
        OpKindView::Clean { .. } => None,
        OpKindView::Import { .. } => None,
    }
}

/// The first characters of an identity's canonical rendering, as used in
/// descriptions.
pub open spec fn short_chars(id: Identity) -> Seq<char> {
    id_chars(id.hi, id.lo).take(6)
}

/// The human-readable description of a record, one form per kind.
pub open spec fn describe_chars(k: OpKindView) -> Seq<char> {
    match k {
        OpKindView::Push { entry_id, file_count } => "Pushed "@ + dec_rep(file_count)
            + " file(s) to entry "@ + short_chars(entry_id),
        OpKindView::Copy { entry_id, file_count } => "Copied "@ + dec_rep(file_count)
            + " file(s) to entry "@ + short_chars(entry_id),
        OpKindView::Pop { entry_id, destination } => "Popped entry "@ + short_chars(entry_id)
            + " to "@ + destination,
        OpKindView::Peek { entry_id, destination } => "Peeked entry "@ + short_chars(entry_id)
            + " to "@ + destination,
        OpKindView::Drop { entry_id, deleted } => if deleted {
            "Dropped and deleted entry "@ + short_chars(entry_id)
        } else {
            "Dropped entry "@ + short_chars(entry_id) + " to disk"@
        },
        OpKindView::Dump { entry_count, deleted } => if deleted {
            "Dumped and deleted "@ + dec_rep(entry_count) + " entries"@
        } else {
            "Dumped "@ + dec_rep(entry_count) + " entries to disk"@
        },
        OpKindView::Rename { entry_id, old_name, new_name } => "Renamed entry "@ + short_chars(
            entry_id,
        ) + " from '"@ + old_name + "' to '"@ + new_name + "'"@,
        OpKindView::Clean { removed_count, days } => "Cleaned "@ + dec_rep(removed_count)
            + " entries older than "@ + dec_rep_signed(days as int) + " days"@,
        OpKindView::Import { path, entry_count } => "Imported "@ + dec_rep(entry_count)
            + " entries from "@ + path,
    }
}

impl Operation {
    /// A record of the given kind, with a fresh identity, stamped with the
    /// current time.
    pub fn new(kind: OperationKind) -> (r: Operation)
        ensures
            r.kind@ == kind@,
    {
        Operation { id: fresh_identity(), kind, timestamp: now_timestamp() }
    }

    /// A record of the given kind with a caller-chosen identity and time.
    pub fn new_at(kind: OperationKind, id: Identity, timestamp: i64) -> (r: Operation)
        ensures
            r@ == (OpView { id, kind: kind@, timestamp }),
    {
        Operation { id, kind, timestamp }
    }

    /// Describes the record, one fixed phrase per kind.
    pub fn describe(&self) -> (r: String)
        ensures
            r@ == describe_chars(self.kind@),
    {
        match &self.kind {
            OperationKind::Push { entry_id, file_count } => {
                let mut s = "Pushed ".to_owned();
                let count = u64_string(*file_count as u64);
                s.append(count.as_str());
                s.append(" file(s) to entry ");
                let sh = entry_id.short();
                s.append(sh.as_str());
                s
            },
            OperationKind::Copy { entry_id, file_count } => {
                let mut s = "Copied ".to_owned();
                let count = u64_string(*file_count as u64);
                s.append(count.as_str());
                s.append(" file(s) to entry ");
                let sh = entry_id.short();
                s.append(sh.as_str());
                s
            },
            OperationKind::Pop { entry_id, destination } => {
                let mut s = "Popped entry ".to_owned();
                let sh = entry_id.short();
                s.append(sh.as_str());
                s.append(" to ");
                s.append(destination.as_str());
                s
            },
            OperationKind::Peek { entry_id, destination } => {
                let mut s = "Peeked entry ".to_owned();
                let sh = entry_id.short();
                s.append(sh.as_str());
                s.append(" to ");
                s.append(destination.as_str());
                s
            },
            OperationKind::Drop { entry_id, deleted } => {
                if *deleted {
                    let mut s = "Dropped and deleted entry ".to_owned();
                    let sh = entry_id.short();
                    s.append(sh.as_str());
                    s
                } else {
                    let mut s = "Dropped entry ".to_owned();
                    let sh = entry_id.short();
                    s.append(sh.as_str());
                    s.append(" to disk");
                    s
                }
            },
            OperationKind::Dump { entry_count, deleted } => {
                if *deleted {
                    let mut s = "Dumped and deleted ".to_owned();
                    let count = u64_string(*entry_count as u64);
                    s.append(count.as_str());
                    s.append(" entries");
                    s
                } else {
                    let mut s = "Dumped ".to_owned();
                    let count = u64_string(*entry_count as u64);
                    s.append(count.as_str());
                    s.append(" entries to disk");
                    s
                }
            },
            OperationKind::Rename { entry_id, old_name, new_name } => {
                let mut s = "Renamed entry ".to_owned();
                let sh = entry_id.short();
                s.append(sh.as_str());
                s.append(" from '");
                s.append(old_name.as_str());
                s.append("' to '");
                s.append(new_name.as_str());
                s.append("'");
                s
            },
            OperationKind::Clean { removed_count, days } => {
                let mut s = "Cleaned ".to_owned();
                let count = u64_string(*removed_count as u64);
                s.append(count.as_str());
                s.append(" entries older than ");
                let d = i64_string(*days);
                s.append(d.as_str());
                s.append(" days");
                s
            },
            OperationKind::Import { path, entry_count } => {
                let mut s = "Imported ".to_owned();
                let count = u64_string(*entry_count as u64);
                s.append(count.as_str());
                s.append(" entries from ");
                s.append(path.as_str());
                s
            },
        }
    }

    /// Whether the record's kind is one a later change could undo.
    pub fn is_undoable(&self) -> (r: bool)
        ensures
            r == (self.kind@ matches OpKindView::Push { .. } || self.kind@
                matches OpKindView::Pop { .. } || (self.kind@ matches OpKindView::Drop {
                deleted,
                ..
            } && !deleted) || self.kind@ matches OpKindView::Rename { .. }),
    {
        match &self.kind {
            OperationKind::Push { .. } => true,
            OperationKind::Pop { .. } => true,
            OperationKind::Drop { deleted, .. } => !*deleted,
            OperationKind::Rename { .. } => true,
            _ => false,
        }
    }

    /// The identity of the entry this record speaks of, if any.
    pub fn entry_id(&self) -> (r: Option<Identity>)
        ensures
            r == kind_entry_id(self.kind@),
    {
        match &self.kind {
            OperationKind::Push { entry_id, .. } => Some(*entry_id),
            OperationKind::Copy { entry_id, .. } => Some(*entry_id),
            OperationKind::Pop { entry_id, .. } => Some(*entry_id),
            OperationKind::Peek { entry_id, .. } => Some(*entry_id),
            OperationKind::Drop { entry_id, .. } => Some(*entry_id),
            OperationKind::Rename { entry_id, .. } => Some(*entry_id),
            _ => None,
        }
    }

    /// Whether this record speaks of the given entry.
    pub fn involves_entry(&self, entry_id: &Identity) -> (r: bool)
        ensures
            r == (kind_entry_id(self.kind@) == Some(*entry_id)),
    {
        match self.entry_id() {
            Some(id) => id.hi == entry_id.hi && id.lo == entry_id.lo,
            None => false,
        }
    }
}

} // verus!
