//! The entry lifecycle manager.  It owns the in-memory index and journal,
//! decides every mutation, and emits an ordered action plan for the shell
//! to execute against the filesystem.  The plan order carries the
//! consistency guarantees: items are relocated before the manifest is
//! written, the manifest before the index document, the journal last.

use vstd::prelude::*;
use crate::clock::now_timestamp;
use crate::entry::{Entry, EntryView, entry_wf, sum_item_sizes};
use crate::errors::{StashError, Ambiguity};
use crate::ids::{Identity, id_chars, fresh_identity, lemma_id_chars_injective};
use crate::index_storage::IndexStorage;
use crate::item::{Item, ItemView, opt_view};
use crate::journal_storage::JournalStorage;
use crate::operation::{Operation, OperationKind, OpKindView};
use crate::paths::{joined, join_path, file_name_chars, file_name_of};
use crate::stash::{EntryMetadata, MetaView, contains_id, name_matches, older_than};

verus! {

/// How an item travels into the store.
#[derive(Debug, Clone, Copy, PartialEq, Eq, Structural)]
pub enum RelocateMode {
    /// Rename into the store; on cross-device failure, copy then delete
    /// the source, reapplying timestamps.
    Move,
    /// Recursive structural copy; the original stays in place.
    Copy,
    /// A symbolic link at the stash location pointing at the original.
    Symlink,
}

/// One step of a plan, in the exact order the shell must execute.
#[derive(Debug)]
pub enum FsAction {
    /// Create the entry's directory and data subtree.
    PrepareEntryDirs { data_dir: String },
    /// Relocate one item into the store, preserving timestamps.
    Stash { src: String, dest: String, mode: RelocateMode },
    /// Restore one item out of the store, reapplying the recorded
    /// permissions and modification time; a copy keeps the stored item.
    Restore { src: String, dest: String, permissions: u32, modified: i64, copy: bool },
    /// Remove an entry directory recursively; best-effort removals may
    /// fail without failing the operation.
    RemoveEntryDir { path: String, best_effort: bool },
    /// Write the entry's manifest document.
    WriteManifest,
    /// Persist the index document wholesale.
    PersistIndex,
    /// Persist the journal document wholesale.
    PersistJournal,
}

/// The mathematical content of an [`FsAction`].
pub ghost enum ActView {
    PrepareEntryDirs { data_dir: Seq<char> },
    Stash { src: Seq<char>, dest: Seq<char>, mode: RelocateMode },
    Restore { src: Seq<char>, dest: Seq<char>, permissions: u32, modified: i64, copy: bool },
    RemoveEntryDir { path: Seq<char>, best_effort: bool },
    WriteManifest,
    PersistIndex,
    PersistJournal,
}

impl View for FsAction {
    type V = ActView;

    open spec fn view(&self) -> ActView {
        match self {
            FsAction::PrepareEntryDirs { data_dir } => ActView::PrepareEntryDirs {
                data_dir: data_dir@,
            },
            FsAction::Stash { src, dest, mode } => ActView::Stash {
                src: src@,
                dest: dest@,
                mode: *mode,
            },
            FsAction::Restore { src, dest, permissions, modified, copy } => ActView::Restore {
                src: src@,
                dest: dest@,
                permissions: *permissions,
                modified: *modified,
                copy: *copy,
            },
            FsAction::RemoveEntryDir { path, best_effort } => ActView::RemoveEntryDir {
                path: path@,
                best_effort: *best_effort,
            },
            FsAction::WriteManifest => ActView::WriteManifest,
            FsAction::PersistIndex => ActView::PersistIndex,
            FsAction::PersistJournal => ActView::PersistJournal,
        }
    }
}

/// The views of a plan's actions.
pub open spec fn acts_view(s: Seq<FsAction>) -> Seq<ActView> {
    s.map_values(|a: FsAction| a@)
}

/// What a push asks for.
#[derive(Debug)]
pub struct PushOptions {
    /// The entry's name; the first item's file name when absent.
    pub name: Option<String>,
    /// Copy instead of move.
    pub copy: bool,
    /// Symlink in place instead of moving.
    pub link: bool,
    /// Allow symlinking directories.
    pub allow_dirs: bool,
}

/// What a pop asks for.
#[derive(Debug)]
pub struct PopOptions {
    /// Where the items are restored to.
    pub destination: String,
    /// Keep the entry in the store after restoring.
    pub copy: bool,
    /// Overwrite colliding destinations instead of failing.
    pub force: bool,
}

/// The mode an entry's items travel in, from the push options.
pub open spec fn mode_of(copy: bool, link: bool) -> RelocateMode {
    if link {
        RelocateMode::Symlink
    } else if copy {
        RelocateMode::Copy
    } else {
        RelocateMode::Move
    }
}

/// The directory of one entry under the store root.
pub open spec fn entry_dir_chars(root: Seq<char>, id: Identity) -> Seq<char> {
    joined(root, id_chars(id.hi, id.lo))
}

/// The data subtree of one entry under the store root.
pub open spec fn data_dir_chars(root: Seq<char>, id: Identity) -> Seq<char> {
    joined(entry_dir_chars(root, id), "data"@)
}

/// Whether one eviction pass at the given time turned the registry's
/// summaries into exactly the kept filter, reporting exactly the evicted
/// identities.
pub open spec fn cleaned_at(
    entries: Seq<MetaView>,
    days: i64,
    now: i64,
    kept: Seq<MetaView>,
    removed: Seq<Identity>,
) -> bool {
    &&& kept == entries.filter(|m: MetaView| !older_than(m, now - days * 86400))
    &&& removed == entries.filter(|m: MetaView| older_than(m, now - days * 86400)).map_values(
        |m: MetaView| m.uuid,
    )
}

/// Whether an entry holds an item taken from the given path.
pub open spec fn has_item(e: EntryView, path: Seq<char>) -> bool {
    exists|i: int| 0 <= i < e.items.len() && e.items[i].original_path == path
}

/// The entry lifecycle manager: the store root and the two persisted
/// registries, mutated in memory here and persisted by the shell when a
/// plan says so.
#[derive(Debug)]
pub struct EntryManager {
    pub entries_root: String,
    pub index_storage: IndexStorage,
    pub journal_storage: JournalStorage,
}

impl EntryManager {
    /// The manager's invariant: the registry invariants hold.
    pub open spec fn inv(&self) -> bool {
        self.index_storage.stash.wf()
    }

    /// A manager over the given store root and registries; the shell
    /// creates the store directory itself.
    pub fn new(
        entries_root: String,
        index_storage: IndexStorage,
        journal_storage: JournalStorage,
    ) -> (r: EntryManager)
        requires
            index_storage.stash.wf(),
        ensures
            r.inv(),
            r.entries_root@ == entries_root@,
            r.index_storage.stash@ == index_storage.stash@,
            r.journal_storage.records() == journal_storage.records(),
    {
        EntryManager { entries_root, index_storage, journal_storage }
    }

    /// The directory one entry lives in.
    pub fn entry_dir(&self, uuid: &Identity) -> (r: String)
        ensures
            r@ == entry_dir_chars(self.entries_root@, *uuid),
    {
        let id_string = uuid.to_hyphenated();
        join_path(self.entries_root.as_str(), id_string.as_str())
    }

    /// The data subtree one entry's items live in.
    pub fn data_dir(&self, uuid: &Identity) -> (r: String)
        ensures
            r@ == data_dir_chars(self.entries_root@, *uuid),
    {
        let dir = self.entry_dir(uuid);
        join_path(dir.as_str(), "data")
    }

    /// The summary of the entry with the given identity, or the distinct
    /// not-found condition.
    pub fn require_entry(&self, uuid: &Identity) -> (r: Result<EntryMetadata, StashError>)
        ensures
            r matches Ok(m) ==> contains_id(self.index_storage.stash@.entries, *uuid) && m.uuid
                == *uuid && exists|i: int|
                0 <= i < self.index_storage.stash@.entries.len()
                    && self.index_storage.stash@.entries[i] == m@,
            r is Err ==> !contains_id(self.index_storage.stash@.entries, *uuid) && (r matches
                Err(e) && e matches StashError::NotFound { identifier } && identifier@
                == id_chars(uuid.hi, uuid.lo)),
    {
        match self.index_storage.get_metadata(uuid) {
            Some(m) => Ok(m.clone()),
            None => Err(StashError::NotFound { identifier: uuid.to_hyphenated() }),
        }
    }

    /// Resolves a human-supplied identifier: a canonical identity rendering
    /// known to the index wins; otherwise the name must match exactly one
    /// entry — none is not found, several are ambiguous.
    pub fn resolve_identifier(&self, identifier: &str) -> (r: Result<Identity, StashError>)
        ensures
            r matches Ok(id) ==> contains_id(self.index_storage.stash@.entries, id) && (
            identifier@ == id_chars(id.hi, id.lo) || exists|i: int|
                0 <= i < self.index_storage.stash@.entries.len()
                    && #[trigger] self.index_storage.stash@.entries[i].uuid == id
                    && name_matches(self.index_storage.stash@.entries[i], identifier@)),
            r matches Err(e) ==> {
                &&& (forall|i: int|
                    0 <= i < self.index_storage.stash@.entries.len() ==> identifier@
                        != id_chars(
                        #[trigger] self.index_storage.stash@.entries[i].uuid.hi,
                        self.index_storage.stash@.entries[i].uuid.lo,
                    ))
                &&& (e matches StashError::NotFound { identifier: reported } ==> {
                    &&& reported@ == identifier@
                    &&& self.index_storage.stash@.entries.filter(
                        |m: MetaView| name_matches(m, identifier@),
                    ).len() == 0
                })
                &&& (e matches StashError::AmbiguousOperation { ambiguity } ==> {
                    &&& ambiguity matches Ambiguity::MultipleMatches { identifier: reported }
                        && reported@ == identifier@
                    &&& self.index_storage.stash@.entries.filter(
                        |m: MetaView| name_matches(m, identifier@),
                    ).len() > 1
                })
                &&& (e is NotFound || e is AmbiguousOperation)
            },
    {
        let parsed = Identity::parse(identifier);
        if let Some(id) = parsed {
            if let Some(m) = self.index_storage.get_metadata(&id) {
                return Ok(m.uuid);
            }
        }
        let count = self.index_storage.stash.count_name_matches(identifier);
        proof {
            assert forall|i: int|
                0 <= i < self.index_storage.stash@.entries.len() implies identifier@
                != id_chars(
                #[trigger] self.index_storage.stash@.entries[i].uuid.hi,
                self.index_storage.stash@.entries[i].uuid.lo,
            ) by {
                let m = self.index_storage.stash@.entries[i];
                if identifier@ == id_chars(m.uuid.hi, m.uuid.lo) {
                    match parsed {
                        Some(id) => {
                            lemma_id_chars_injective(id.hi, id.lo, m.uuid.hi, m.uuid.lo);
                            assert(contains_id(self.index_storage.stash@.entries, id));
                        },
                        None => {},
                    }
                }
            }
        }
        if count == 0 {
            Err(StashError::NotFound { identifier: identifier.to_owned() })
        } else if count == 1 {
            match self.index_storage.find_by_name(identifier) {
                Some(m) => {
                    proof {
                        let i = choose|i: int|
                            0 <= i < self.index_storage.stash@.entries.len()
                                && self.index_storage.stash@.entries[i] == m@ && name_matches(
                                m@,
                                identifier@,
                            );
                        assert(self.index_storage.stash@.entries[i].uuid == m.uuid);
                        assert(name_matches(self.index_storage.stash@.entries[i], identifier@));
                        assert(contains_id(self.index_storage.stash@.entries, m.uuid));
                    }
                    Ok(m.uuid)
                },
                None => {
                    proof {
                        lemma_name_match_gives_containment(
                            self.index_storage.stash@.entries,
                            identifier@,
                        );
                    }
                    Err(StashError::NotFound { identifier: identifier.to_owned() })
                },
            }
        } else {
            Err(
                StashError::AmbiguousOperation {
                    ambiguity: Ambiguity::MultipleMatches { identifier: identifier.to_owned() },
                },
            )
        }
    }

    /// Every summary, in registration order.
    pub fn list_entries(&self) -> (r: &Vec<EntryMetadata>)
        ensures
            crate::stash::metas_view(r@) == self.index_storage.stash@.entries,
    {
        self.index_storage.list_all()
    }

    /// The most recently registered summary, if any.
    pub fn most_recent_entry(&self) -> (r: Option<&EntryMetadata>)
        ensures
            self.index_storage.stash@.entries.len() == 0 ==> r is None,
            self.index_storage.stash@.entries.len() > 0 ==> (r matches Some(m) && m@
                == self.index_storage.stash@.entries.last()),
    {
        self.index_storage.most_recent()
    }

    /// The identities of the loaded entries that hold an item taken from
    /// the given path, in the given order.
    pub fn find_entries_containing_path(&self, entries: &Vec<Entry>, path: &str) -> (r: Vec<
        Identity,
    >)
        ensures
            r@ == entries@.map_values(|e: Entry| e@).filter(|e: EntryView| has_item(e, path@))
                .map_values(|e: EntryView| e.uuid),
    {
        let ghost views = entries@.map_values(|e: Entry| e@);
        let mut r: Vec<Identity> = Vec::new();
        let mut i: usize = 0;
        while i < entries.len()
            invariant
                views == entries@.map_values(|e: Entry| e@),
                i <= entries@.len(),
                r@ == views.take(i as int).filter(|e: EntryView| has_item(e, path@))
                    .map_values(|e: EntryView| e.uuid),
            decreases entries@.len() - i,
        {
            proof {
                reveal(Seq::filter);
                assert(views[i as int] == entries@[i as int]@);
                let prefix = views.take(i + 1);
                assert(prefix.drop_last() =~= views.take(i as int));
                assert(prefix.last() == views[i as int]);
            }
            let hit: bool;
            match entries[i].get_item(path) {
                Some(found) => {
                    proof {
                        let k = choose|k: int|
                            0 <= k < entries@[i as int].items@.len() && entries@[
                                i as int
                            ].items@[k]@ == found@ && found@.original_path == path@;
                        assert(views[i as int].items[k].original_path == path@);
                        assert(has_item(views[i as int], path@));
                    }
                    hit = true;
                },
                None => {
                    proof {
                        assert forall|k: int|
                            0 <= k < views[i as int].items.len() implies views[
                            i as int
                        ].items[k].original_path != path@ by {
                            assert(views[i as int].items[k] == entries@[i as int].items@[k]@);
                        }
                        assert(!has_item(views[i as int], path@));
                    }
                    hit = false;
                },
            }
            if hit {
                r.push(entries[i].uuid);
            }
            proof {
                assert(r@ =~= views.take(i + 1).filter(|e: EntryView| has_item(e, path@))
                    .map_values(|e: EntryView| e.uuid));
            }
            i = i + 1;
        }
        proof {
            assert(views.take(views.len() as int) =~= views);
        }
        r
    }

    /// Deletes one entry: the summary leaves the index unconditionally, the
    /// on-disk directory removal is surfaced by the shell, and a drop
    /// record is appended last.
    pub fn delete_entry(&mut self, uuid: &Identity) -> (r: Result<Vec<FsAction>, StashError>)
        requires
            old(self).inv(),
        ensures
            final(self).inv(),
            final(self).entries_root@ == old(self).entries_root@,
            r is Err <==> !contains_id(old(self).index_storage.stash@.entries, *uuid),
            r matches Err(e) ==> e is NotFound && final(self).index_storage.stash@ == old(
                self,
            ).index_storage.stash@ && final(self).journal_storage.records() == old(
                self,
            ).journal_storage.records(),
            r matches Ok(plan) ==> {
                &&& !contains_id(final(self).index_storage.stash@.entries, *uuid)
                &&& exists|i: int|
                    {
                        &&& 0 <= i < old(self).index_storage.stash@.entries.len()
                        &&& old(self).index_storage.stash@.entries[i].uuid == *uuid
                        &&& final(self).index_storage.stash@.entries == old(
                            self,
                        ).index_storage.stash@.entries.remove(i)
                    }
                &&& final(self).journal_storage.records().len() == old(
                    self,
                ).journal_storage.records().len() + 1
                &&& final(self).journal_storage.records().last().kind matches OpKindView::Drop {
                    entry_id,
                    deleted,
                } && entry_id == *uuid && deleted
                &&& final(self).journal_storage.records().take(
                    old(self).journal_storage.records().len() as int,
                ) == old(self).journal_storage.records()
                &&& acts_view(plan@) =~= seq![
                    ActView::RemoveEntryDir {
                        path: entry_dir_chars(old(self).entries_root@, *uuid),
                        best_effort: false,
                    },
                    ActView::PersistIndex,
                    ActView::PersistJournal,
                ]
            },
    {
        let now = now_timestamp();
        match self.index_storage.remove_entry(uuid, now) {
            Some(_) => {},
            None => {
                return Err(StashError::NotFound { identifier: uuid.to_hyphenated() });
            },
        }
        let op = Operation {
            id: fresh_identity(),
            kind: OperationKind::Drop { entry_id: *uuid, deleted: true },
            timestamp: now,
        };
        self.journal_storage.append(op);
        let mut plan: Vec<FsAction> = Vec::new();
        plan.push(FsAction::RemoveEntryDir { path: self.entry_dir(uuid), best_effort: false });
        plan.push(FsAction::PersistIndex);
        plan.push(FsAction::PersistJournal);
        proof {
            let recs = self.journal_storage.records();
            assert(recs.take(recs.len() - 1) =~= old(self).journal_storage.records());
        }
        Ok(plan)
    }

    /// Evicts every entry created strictly before `now` minus the given
    /// number of days.  The index decision is committed first; the per-entry
    /// directory removals that follow are best-effort.
    pub fn clean_old_entries_at(&mut self, days: i64, now: i64) -> (r: (
        Vec<Identity>,
        Vec<FsAction>,
    ))
        requires
            old(self).inv(),
        ensures
            final(self).inv(),
            final(self).entries_root@ == old(self).entries_root@,
            final(self).index_storage.stash@.entries == old(
                self,
            ).index_storage.stash@.entries.filter(
                |m: MetaView| !older_than(m, now - days * 86400),
            ),
            r.0@ == old(self).index_storage.stash@.entries.filter(
                |m: MetaView| older_than(m, now - days * 86400),
            ).map_values(|m: MetaView| m.uuid),
            final(self).journal_storage.records().len() == old(
                self,
            ).journal_storage.records().len() + 1,
            final(self).journal_storage.records().last().kind matches OpKindView::Clean {
                removed_count,
                days: recorded_days,
            } && removed_count == r.0@.len() && recorded_days == days,
            final(self).journal_storage.records().take(
                old(self).journal_storage.records().len() as int,
            ) == old(self).journal_storage.records(),
            r.1@.len() == r.0@.len() + 2,
            r.1@[0]@ is PersistIndex,
            forall|i: int|
                0 <= i < r.0@.len() ==> (#[trigger] r.1@[1 + i]@ matches
                    ActView::RemoveEntryDir { path, best_effort } && path == entry_dir_chars(
                    old(self).entries_root@,
                    r.0@[i],
                ) && best_effort),
            r.1@[r.1@.len() - 1]@ is PersistJournal,
    {
        let removed = self.index_storage.remove_older_than_days(days, now);
        let op = Operation {
            id: fresh_identity(),
            kind: OperationKind::Clean { removed_count: removed.len(), days },
            timestamp: now,
        };
        self.journal_storage.append(op);
        let mut plan: Vec<FsAction> = Vec::new();
        plan.push(FsAction::PersistIndex);
        let mut i: usize = 0;
        while i < removed.len()
            invariant
                i <= removed@.len(),
                plan@.len() == i + 1,
                plan@[0]@ is PersistIndex,
                self.entries_root@ == old(self).entries_root@,
                forall|j: int|
                    0 <= j < i ==> (#[trigger] plan@[1 + j]@ matches ActView::RemoveEntryDir {
                        path,
                        best_effort,
                    } && path == entry_dir_chars(old(self).entries_root@, removed@[j])
                        && best_effort),
            decreases removed@.len() - i,
        {
            let dir = self.entry_dir(&removed[i]);
            plan.push(FsAction::RemoveEntryDir { path: dir, best_effort: true });
            i = i + 1;
        }
        plan.push(FsAction::PersistJournal);
        proof {
            let recs = self.journal_storage.records();
            assert(recs.take(recs.len() - 1) =~= old(self).journal_storage.records());
        }
        (removed, plan)
    }

    /// Evicts every entry older than the given number of days, measured
    /// from the current time.
    pub fn clean_old_entries(&mut self, days: i64) -> (r: (Vec<Identity>, Vec<FsAction>))
        requires
            old(self).inv(),
        ensures
            final(self).inv(),
            final(self).entries_root@ == old(self).entries_root@,
            exists|now: i64|
                #[trigger] cleaned_at(
                    old(self).index_storage.stash@.entries,
                    days,
                    now,
                    final(self).index_storage.stash@.entries,
                    r.0@,
                ),
            final(self).journal_storage.records().len() == old(
                self,
            ).journal_storage.records().len() + 1,
            final(self).journal_storage.records().last().kind matches OpKindView::Clean {
                removed_count,
                days: recorded_days,
            } && removed_count == r.0@.len() && recorded_days == days,
    {
        let now = now_timestamp();
        let r = self.clean_old_entries_at(days, now);
        proof {
            assert(cleaned_at(
                old(self).index_storage.stash@.entries,
                days,
                now,
                self.index_storage.stash@.entries,
                r.0@,
            ));
        }
        r
    }
}

/// Whether a symlink push is refused: directories may only be linked with
/// an explicit override.
pub open spec fn link_violation(items: Seq<ItemView>, link: bool, allow_dirs: bool) -> bool {
    link && !allow_dirs && exists|i: int| 0 <= i < items.len() && items[i].kind is Directory
}

/// The name a new entry ends up with: the requested one, or the first
/// item's file name.
pub open spec fn chosen_name(name: Option<Seq<char>>, items: Seq<ItemView>) -> Option<
    Seq<char>,
> {
    match name {
        Some(n) => Some(n),
        None => if items.len() > 0 {
            Some(file_name_chars(items[0].original_path))
        } else {
            None
        },
    }
}

/// The display name of an entry: its name, or its short identity.
pub open spec fn display_chars(e: EntryView) -> Seq<char> {
    match e.name {
        Some(n) => n,
        None => id_chars(e.uuid.hi, e.uuid.lo).take(6),
    }
}

/// Whether a plan relocates exactly the given items into the store, in
/// order, then writes the manifest, then the index document, then the
/// journal document.
pub open spec fn stash_plan_ok(
    plan: Seq<ActView>,
    root: Seq<char>,
    id: Identity,
    items: Seq<ItemView>,
    mode: RelocateMode,
) -> bool {
    &&& plan.len() == items.len() + 4
    &&& plan[0] matches ActView::PrepareEntryDirs { data_dir } && data_dir == data_dir_chars(
        root,
        id,
    )
    &&& forall|i: int|
        0 <= i < items.len() ==> (#[trigger] plan[1 + i] matches ActView::Stash {
            src,
            dest,
            mode: m,
        } && src == items[i].original_path && dest == joined(
            data_dir_chars(root, id),
            items[i].stashed_path,
        ) && m == mode)
    &&& plan[items.len() as int + 1] is WriteManifest
    &&& plan[items.len() as int + 2] is PersistIndex
    &&& plan[items.len() as int + 3] is PersistJournal
}

/// Whether the first actions of a plan restore exactly the given items out
/// of the store, in order, carrying each item's recorded permissions and
/// modification time.
pub open spec fn restore_actions_ok(
    plan: Seq<ActView>,
    data_dir: Seq<char>,
    dest_root: Seq<char>,
    items: Seq<ItemView>,
    copy: bool,
) -> bool {
    &&& plan.len() >= items.len()
    &&& forall|i: int|
        0 <= i < items.len() ==> (#[trigger] plan[i] matches ActView::Restore {
            src,
            dest,
            permissions,
            modified,
            copy: c,
        } && src == joined(data_dir, items[i].stashed_path) && dest == joined(
            dest_root,
            items[i].stashed_path,
        ) && permissions == items[i].permissions && modified == items[i].modified && c == copy)
}

impl EntryManager {
    /// Creates an entry from snapshotted items with a caller-chosen
    /// identity and creation time: the items are registered, the index and
    /// journal are extended, and the returned plan relocates every item
    /// before the manifest, the manifest before the index document, the
    /// journal last.  No filesystem state has changed when this returns.
    pub fn create_entry_with(
        &mut self,
        items: Vec<Item>,
        options: PushOptions,
        working_directory: String,
        uuid: Identity,
        created: i64,
    ) -> (r: Result<(Entry, Vec<FsAction>), StashError>)
        requires
            old(self).inv(),
        ensures
            final(self).inv(),
            final(self).entries_root@ == old(self).entries_root@,
            r is Err ==> final(self).index_storage.stash@ == old(self).index_storage.stash@
                && final(self).journal_storage.records() == old(
                self,
            ).journal_storage.records(),
            items@.len() == 0 ==> (r matches Err(e) && e is InvalidInput),
            items@.len() > 0 && link_violation(
                items@.map_values(|it: Item| it@),
                options.link,
                options.allow_dirs,
            ) ==> (r matches Err(e) && e is InvalidInput),
            items@.len() > 0 && !link_violation(
                items@.map_values(|it: Item| it@),
                options.link,
                options.allow_dirs,
            ) && contains_id(old(self).index_storage.stash@.entries, uuid) ==> (r matches Err(e)
                && e is IOFailure),
            items@.len() > 0 && !link_violation(
                items@.map_values(|it: Item| it@),
                options.link,
                options.allow_dirs,
            ) && !contains_id(old(self).index_storage.stash@.entries, uuid)
                && sum_item_sizes(items@.map_values(|it: Item| it@)) > u64::MAX ==> (r matches
                Err(e) && e is InvalidInput),
            items@.len() > 0 && !link_violation(
                items@.map_values(|it: Item| it@),
                options.link,
                options.allow_dirs,
            ) && !contains_id(old(self).index_storage.stash@.entries, uuid)
                && sum_item_sizes(items@.map_values(|it: Item| it@)) <= u64::MAX
                && old(self).index_storage.stash.total_size_bytes + sum_item_sizes(
                items@.map_values(|it: Item| it@),
            ) > u64::MAX ==> (r matches Err(e) && e is InvalidInput),
            items@.len() > 0 && !link_violation(
                items@.map_values(|it: Item| it@),
                options.link,
                options.allow_dirs,
            ) && !contains_id(old(self).index_storage.stash@.entries, uuid)
                && sum_item_sizes(items@.map_values(|it: Item| it@)) <= u64::MAX
                && old(self).index_storage.stash.total_size_bytes + sum_item_sizes(
                items@.map_values(|it: Item| it@),
            ) <= u64::MAX ==> (r matches Ok(ok) && {
                let entry = ok.0;
                let plan = ok.1;
                &&& entry@ == (EntryView {
                    uuid,
                    name: chosen_name(opt_view(options.name), items@.map_values(|it: Item| it@)),
                    created,
                    updated: created,
                    working_directory: working_directory@,
                    items: items@.map_values(|it: Item| it@),
                    total_size_bytes: entry.total_size_bytes,
                    was_destructive: !options.copy,
                })
                &&& entry_wf(entry@)
                &&& final(self).index_storage.stash@.entries == old(
                    self,
                ).index_storage.stash@.entries.push(
                    MetaView {
                        uuid,
                        name: chosen_name(
                            opt_view(options.name),
                            items@.map_values(|it: Item| it@),
                        ),
                        created,
                        total_size_bytes: entry.total_size_bytes,
                        item_count: items@.len() as int,
                    },
                )
                &&& final(self).journal_storage.records() == old(
                    self,
                ).journal_storage.records().push(
                    final(self).journal_storage.records().last(),
                )
                &&& final(self).journal_storage.records().last().kind == (if options.copy {
                    OpKindView::Copy { entry_id: uuid, file_count: items@.len() as int }
                } else {
                    OpKindView::Push { entry_id: uuid, file_count: items@.len() as int }
                })
                &&& final(self).journal_storage.records().last().timestamp == created
                &&& stash_plan_ok(
                    acts_view(plan@),
                    old(self).entries_root@,
                    uuid,
                    items@.map_values(|it: Item| it@),
                    mode_of(options.copy, options.link),
                )
            }),
    {
        let ghost its = items@.map_values(|it: Item| it@);
        if items.len() == 0 {
            return Err(StashError::InvalidInput { context: "no paths provided".to_owned() });
        }
        if options.link && !options.allow_dirs {
            let mut i: usize = 0;
            while i < items.len()
                invariant
                    i <= items@.len(),
                    its == items@.map_values(|it: Item| it@),
                    forall|j: int| 0 <= j < i ==> !(its[j].kind is Directory),
                    options.link && !options.allow_dirs,
                    items@.len() > 0,
                    self.index_storage.stash@ == old(self).index_storage.stash@,
                    self.index_storage.stash.wf(),
                    self.journal_storage.records() == old(self).journal_storage.records(),
                    self.entries_root@ == old(self).entries_root@,
                decreases items@.len() - i,
            {
                proof {
                    assert(its[i as int] == items@[i as int]@);
                }
                if matches!(items[i].kind, crate::item::ItemKind::Directory) {
                    proof {
                        assert(its[i as int].kind is Directory);
                        assert(link_violation(its, options.link, options.allow_dirs));
                    }
                    return Err(
                        StashError::InvalidInput {
                            context: "cannot symlink a directory without an override".to_owned(),
                        },
                    );
                }
                i = i + 1;
            }
        }
        if self.index_storage.contains(&uuid) {
            return Err(StashError::IOFailure { context: "identity already in use".to_owned() });
        }
        let total = match crate::entry::total_of_items(&items) {
            Some(t) => t,
            None => {
                return Err(
                    StashError::InvalidInput { context: "entry size overflows".to_owned() },
                );
            },
        };
        if self.index_storage.total_size() > u64::MAX - total {
            return Err(StashError::InvalidInput { context: "store size overflows".to_owned() });
        }
        let name: Option<String> = match &options.name {
            Some(n) => Some(n.clone()),
            None => Some(file_name_of(items[0].original_path.as_str())),
        };
        proof {
            assert(items@[0]@ == its[0]);
        }
        let mode = if options.link {
            RelocateMode::Symlink
        } else if options.copy {
            RelocateMode::Copy
        } else {
            RelocateMode::Move
        };
        let data_dir = self.data_dir(&uuid);
        let mut plan: Vec<FsAction> = Vec::new();
        plan.push(FsAction::PrepareEntryDirs { data_dir: data_dir.clone() });
        let mut i: usize = 0;
        while i < items.len()
            invariant
                i <= items@.len(),
                its == items@.map_values(|it: Item| it@),
                data_dir@ == data_dir_chars(self.entries_root@, uuid),
                plan@.len() == i + 1,
                plan@[0]@ matches ActView::PrepareEntryDirs { data_dir: d } && d
                    == data_dir_chars(self.entries_root@, uuid),
                forall|j: int|
                    0 <= j < i ==> (#[trigger] plan@[1 + j]@ matches ActView::Stash {
                        src,
                        dest,
                        mode: m,
                    } && src == its[j].original_path && dest == joined(
                        data_dir_chars(self.entries_root@, uuid),
                        its[j].stashed_path,
                    ) && m == mode),
            decreases items@.len() - i,
        {
            proof {
                assert(its[i as int] == items@[i as int]@);
            }
            plan.push(
                FsAction::Stash {
                    src: items[i].original_path.clone(),
                    dest: join_path(data_dir.as_str(), items[i].stashed_path.as_str()),
                    mode,
                },
            );
            i = i + 1;
        }
        plan.push(FsAction::WriteManifest);
        plan.push(FsAction::PersistIndex);
        plan.push(FsAction::PersistJournal);
        let count = items.len();
        let name_for_entry = crate::item::clone_opt_string(&name);
        let entry = match Entry::new_at(
            name_for_entry,
            items,
            working_directory,
            !options.copy,
            uuid,
            created,
        ) {
            Some(e) => e,
            None => {
                proof {
                    assert(false);
                }
                return Err(
                    StashError::InvalidInput { context: "entry size overflows".to_owned() },
                );
            },
        };
        self.index_storage.add_entry(uuid, name, total, count, created);
        let kind = if options.copy {
            OperationKind::Copy { entry_id: uuid, file_count: count }
        } else {
            OperationKind::Push { entry_id: uuid, file_count: count }
        };
        let op = Operation { id: fresh_identity(), kind, timestamp: created };
        self.journal_storage.append(op);
        proof {
            let recs = self.journal_storage.records();
            assert(recs.drop_last() =~= old(self).journal_storage.records());
            assert(recs == old(self).journal_storage.records().push(recs.last()));
        }
        Ok((entry, plan))
    }

    /// Creates an entry with a freshly drawn identity, stamped with the
    /// current time.
    pub fn create_entry(
        &mut self,
        items: Vec<Item>,
        options: PushOptions,
        working_directory: String,
    ) -> (r: Result<(Entry, Vec<FsAction>), StashError>)
        requires
            old(self).inv(),
        ensures
            final(self).inv(),
            final(self).entries_root@ == old(self).entries_root@,
            r is Err ==> final(self).index_storage.stash@ == old(self).index_storage.stash@
                && final(self).journal_storage.records() == old(
                self,
            ).journal_storage.records(),
            items@.len() == 0 ==> (r matches Err(e) && e is InvalidInput),
            items@.len() > 0 && link_violation(
                items@.map_values(|it: Item| it@),
                options.link,
                options.allow_dirs,
            ) ==> (r matches Err(e) && e is InvalidInput),
            r matches Ok(ok) ==> {
                let entry = ok.0;
                let plan = ok.1;
                &&& entry@.name == chosen_name(
                    opt_view(options.name),
                    items@.map_values(|it: Item| it@),
                )
                &&& entry@.items == items@.map_values(|it: Item| it@)
                &&& entry@.working_directory == working_directory@
                &&& entry.was_destructive == !options.copy
                &&& entry_wf(entry@)
                &&& final(self).index_storage.stash@.entries == old(
                    self,
                ).index_storage.stash@.entries.push(
                    MetaView {
                        uuid: entry.uuid,
                        name: entry@.name,
                        created: entry.created,
                        total_size_bytes: entry.total_size_bytes,
                        item_count: items@.len() as int,
                    },
                )
                &&& final(self).journal_storage.records().len() == old(
                    self,
                ).journal_storage.records().len() + 1
                &&& final(self).journal_storage.records().last().kind == (if options.copy {
                    OpKindView::Copy {
                        entry_id: entry.uuid,
                        file_count: items@.len() as int,
                    }
                } else {
                    OpKindView::Push {
                        entry_id: entry.uuid,
                        file_count: items@.len() as int,
                    }
                })
                &&& stash_plan_ok(
                    acts_view(plan@),
                    old(self).entries_root@,
                    entry.uuid,
                    items@.map_values(|it: Item| it@),
                    mode_of(options.copy, options.link),
                )
            },
    {
        let uuid = fresh_identity();
        let created = now_timestamp();
        let r = self.create_entry_with(items, options, working_directory, uuid, created);
        proof {
            if r is Ok {
                let recs = self.journal_storage.records();
                assert(recs.drop_last() =~= old(self).journal_storage.records());
            }
        }
        r
    }

    /// Restores an entry's items to a destination.  Without force, any
    /// pre-existing destination fails the whole operation before a single
    /// item is restored; the entry leaves the store only after every item,
    /// unless a copy was asked for.
    pub fn pop_entry(&mut self, entry: &Entry, options: PopOptions, collisions: &Vec<bool>) -> (
    r: Result<Vec<FsAction>, StashError>)
        requires
            old(self).inv(),
            collisions@.len() == entry.items@.len(),
        ensures
            final(self).inv(),
            final(self).entries_root@ == old(self).entries_root@,
            r is Err <==> !options.force && exists|i: int|
                0 <= i < collisions@.len() && collisions@[i],
            r matches Err(e) ==> e is Collision && final(self).index_storage.stash@ == old(
                self,
            ).index_storage.stash@ && final(self).journal_storage.records() == old(
                self,
            ).journal_storage.records(),
            r matches Ok(plan) ==> {
                let n = entry.items@.len() as int;
                &&& restore_actions_ok(
                    acts_view(plan@),
                    data_dir_chars(old(self).entries_root@, entry.uuid),
                    options.destination@,
                    entry@.items,
                    options.copy,
                )
                &&& (!options.copy ==> {
                    &&& acts_view(plan@).len() == n + 3
                    &&& acts_view(plan@)[n] matches ActView::RemoveEntryDir {
                        path,
                        best_effort,
                    } && path == entry_dir_chars(old(self).entries_root@, entry.uuid)
                        && !best_effort
                    &&& acts_view(plan@)[n + 1] is PersistIndex
                    &&& !contains_id(final(self).index_storage.stash@.entries, entry.uuid)
                    &&& (contains_id(old(self).index_storage.stash@.entries, entry.uuid)
                        ==> exists|i: int|
                        {
                            &&& 0 <= i < old(self).index_storage.stash@.entries.len()
                            &&& old(self).index_storage.stash@.entries[i].uuid == entry.uuid
                            &&& final(self).index_storage.stash@.entries == old(
                                self,
                            ).index_storage.stash@.entries.remove(i)
                        })
                    &&& (!contains_id(old(self).index_storage.stash@.entries, entry.uuid)
                        ==> final(self).index_storage.stash@ == old(self).index_storage.stash@)
                })
                &&& (options.copy ==> acts_view(plan@).len() == n + 1 && final(self).index_storage.stash@ == old(self).index_storage.stash@)
                &&& acts_view(plan@).last() is PersistJournal
                &&& final(self).journal_storage.records().len() == old(
                    self,
                ).journal_storage.records().len() + 1
                &&& final(self).journal_storage.records().take(
                    old(self).journal_storage.records().len() as int,
                ) == old(self).journal_storage.records()
                &&& final(self).journal_storage.records().last().kind matches OpKindView::Pop {
                    entry_id,
                    destination,
                } && entry_id == entry.uuid && destination == options.destination@
            },
    {
        if !options.force {
            let mut i: usize = 0;
            while i < collisions.len()
                invariant
                    collisions@.len() == entry.items@.len(),
                    i <= collisions@.len(),
                    forall|j: int| 0 <= j < i ==> !collisions@[j],
                    !options.force,
                    self.index_storage.stash@ == old(self).index_storage.stash@,
                    self.index_storage.stash.wf(),
                    self.journal_storage.records() == old(self).journal_storage.records(),
                    self.entries_root@ == old(self).entries_root@,
                decreases collisions@.len() - i,
            {
                if collisions[i] {
                    proof {
                        assert(collisions@[i as int]);
                    }
                    return Err(
                        StashError::Collision {
                            path: join_path(
                                options.destination.as_str(),
                                entry.items[i].stashed_path.as_str(),
                            ),
                        },
                    );
                }
                i = i + 1;
            }
        }
        let now = now_timestamp();
        let data_dir = self.data_dir(&entry.uuid);
        let mut plan: Vec<FsAction> = Vec::new();
        let mut i: usize = 0;
        while i < entry.items.len()
            invariant
                i <= entry.items@.len(),
                data_dir@ == data_dir_chars(self.entries_root@, entry.uuid),
                plan@.len() == i,
                forall|j: int|
                    0 <= j < i ==> (#[trigger] plan@[j]@ matches ActView::Restore {
                        src,
                        dest,
                        permissions,
                        modified,
                        copy,
                    } && src == joined(
                        data_dir_chars(self.entries_root@, entry.uuid),
                        entry@.items[j].stashed_path,
                    ) && dest == joined(options.destination@, entry@.items[j].stashed_path)
                        && permissions == entry@.items[j].permissions && modified == entry@.items[
                        j
                    ].modified && copy == options.copy),
            decreases entry.items@.len() - i,
        {
            proof {
                assert(entry@.items[i as int] == entry.items@[i as int]@);
            }
            plan.push(
                FsAction::Restore {
                    src: join_path(data_dir.as_str(), entry.items[i].stashed_path.as_str()),
                    dest: join_path(
                        options.destination.as_str(),
                        entry.items[i].stashed_path.as_str(),
                    ),
                    permissions: entry.items[i].permissions,
                    modified: entry.items[i].modified,
                    copy: options.copy,
                },
            );
            i = i + 1;
        }
        if !options.copy {
            self.index_storage.remove_entry(&entry.uuid, now);
            plan.push(
                FsAction::RemoveEntryDir { path: self.entry_dir(&entry.uuid), best_effort: false },
            );
            plan.push(FsAction::PersistIndex);
        }
        let op = Operation {
            id: fresh_identity(),
            kind: OperationKind::Pop {
                entry_id: entry.uuid,
                destination: options.destination.clone(),
            },
            timestamp: now,
        };
        self.journal_storage.append(op);
        plan.push(FsAction::PersistJournal);
        proof {
            let recs = self.journal_storage.records();
            assert(recs.take(recs.len() - 1) =~= old(self).journal_storage.records());
        }
        Ok(plan)
    }

    /// Copies an entry's items out without touching the store or the
    /// journal; collision handling is exactly a pop's.
    pub fn peek_entry(&self, entry: &Entry, destination: &str, force: bool, collisions: &Vec<
        bool,
    >) -> (r: Result<Vec<FsAction>, StashError>)
        requires
            collisions@.len() == entry.items@.len(),
        ensures
            r is Err <==> !force && exists|i: int| 0 <= i < collisions@.len() && collisions@[i],
            r matches Err(e) ==> e is Collision,
            r matches Ok(plan) ==> {
                &&& acts_view(plan@).len() == entry.items@.len()
                &&& restore_actions_ok(
                    acts_view(plan@),
                    data_dir_chars(self.entries_root@, entry.uuid),
                    destination@,
                    entry@.items,
                    true,
                )
            },
    {
        if !force {
            let mut i: usize = 0;
            while i < collisions.len()
                invariant
                    collisions@.len() == entry.items@.len(),
                    i <= collisions@.len(),
                    forall|j: int| 0 <= j < i ==> !collisions@[j],
                    !force,
                decreases collisions@.len() - i,
            {
                if collisions[i] {
                    proof {
                        assert(collisions@[i as int]);
                    }
                    return Err(
                        StashError::Collision {
                            path: join_path(destination, entry.items[i].stashed_path.as_str()),
                        },
                    );
                }
                i = i + 1;
            }
        }
        let data_dir = self.data_dir(&entry.uuid);
        let mut plan: Vec<FsAction> = Vec::new();
        let mut i: usize = 0;
        while i < entry.items.len()
            invariant
                i <= entry.items@.len(),
                data_dir@ == data_dir_chars(self.entries_root@, entry.uuid),
                plan@.len() == i,
                forall|j: int|
                    0 <= j < i ==> (#[trigger] plan@[j]@ matches ActView::Restore {
                        src,
                        dest,
                        permissions,
                        modified,
                        copy,
                    } && src == joined(
                        data_dir_chars(self.entries_root@, entry.uuid),
                        entry@.items[j].stashed_path,
                    ) && dest == joined(destination@, entry@.items[j].stashed_path)
                        && permissions == entry@.items[j].permissions && modified == entry@.items[
                        j
                    ].modified && copy),
            decreases entry.items@.len() - i,
        {
            proof {
                assert(entry@.items[i as int] == entry.items@[i as int]@);
            }
            plan.push(
                FsAction::Restore {
                    src: join_path(data_dir.as_str(), entry.items[i].stashed_path.as_str()),
                    dest: join_path(destination, entry.items[i].stashed_path.as_str()),
                    permissions: entry.items[i].permissions,
                    modified: entry.items[i].modified,
                    copy: true,
                },
            );
            i = i + 1;
        }
        Ok(plan)
    }

    /// Restores an entry to its recorded originating working directory,
    /// removing it from the store.
    pub fn restore_entry(&mut self, entry: &Entry, force: bool, collisions: &Vec<bool>) -> (r:
        Result<Vec<FsAction>, StashError>)
        requires
            old(self).inv(),
            collisions@.len() == entry.items@.len(),
        ensures
            final(self).inv(),
            final(self).entries_root@ == old(self).entries_root@,
            r is Err <==> !force && exists|i: int| 0 <= i < collisions@.len() && collisions@[i],
            r matches Err(e) ==> e is Collision && final(self).index_storage.stash@ == old(
                self,
            ).index_storage.stash@ && final(self).journal_storage.records() == old(
                self,
            ).journal_storage.records(),
            r matches Ok(plan) ==> {
                &&& restore_actions_ok(
                    acts_view(plan@),
                    data_dir_chars(old(self).entries_root@, entry.uuid),
                    entry.working_directory@,
                    entry@.items,
                    false,
                )
                &&& !contains_id(final(self).index_storage.stash@.entries, entry.uuid)
                &&& final(self).journal_storage.records().len() == old(
                    self,
                ).journal_storage.records().len() + 1
                &&& final(self).journal_storage.records().last().kind matches OpKindView::Pop {
                    entry_id,
                    destination,
                } && entry_id == entry.uuid && destination == entry.working_directory@
            },
    {
        let destination = entry.working_directory.clone();
        self.pop_entry(entry, PopOptions { destination, copy: false, force }, collisions)
    }

    /// Renames an entry: the manifest and the index summary both take the
    /// new name, and a rename record carries the old display name.
    pub fn rename_entry(&mut self, entry: Entry, new_name: String) -> (r: Result<
        (Entry, Vec<FsAction>),
        StashError,
    >)
        requires
            old(self).inv(),
        ensures
            final(self).inv(),
            final(self).entries_root@ == old(self).entries_root@,
            r is Err <==> !contains_id(old(self).index_storage.stash@.entries, entry.uuid),
            r matches Err(e) ==> e is NotFound && final(self).index_storage.stash@ == old(
                self,
            ).index_storage.stash@ && final(self).journal_storage.records() == old(
                self,
            ).journal_storage.records(),
            r matches Ok(ok) ==> {
                let renamed = ok.0;
                let plan = ok.1;
                &&& renamed@ == (EntryView { name: Some(new_name@), ..entry@ })
                &&& exists|i: int|
                    {
                        &&& 0 <= i < old(self).index_storage.stash@.entries.len()
                        &&& old(self).index_storage.stash@.entries[i].uuid == entry.uuid
                        &&& final(self).index_storage.stash@.entries == old(
                            self,
                        ).index_storage.stash@.entries.update(
                            i,
                            MetaView {
                                name: Some(new_name@),
                                ..old(self).index_storage.stash@.entries[i]
                            },
                        )
                    }
                &&& final(self).journal_storage.records().len() == old(
                    self,
                ).journal_storage.records().len() + 1
                &&& final(self).journal_storage.records().last().kind matches
                    OpKindView::Rename { entry_id, old_name, new_name: recorded } && entry_id
                    == entry.uuid && old_name == display_chars(entry@) && recorded == new_name@
                &&& acts_view(plan@) =~= seq![
                    ActView::WriteManifest,
                    ActView::PersistIndex,
                    ActView::PersistJournal,
                ]
            },
    {
        let now = now_timestamp();
        let old_name = entry.display_name();
        let found = self.index_storage.update_entry_metadata(
            &entry.uuid,
            Some(new_name.clone()),
            0,
            0,
            now,
        );
        if !found {
            return Err(StashError::NotFound { identifier: entry.uuid.to_hyphenated() });
        }
        let mut renamed = entry;
        renamed.name = Some(new_name.clone());
        let op = Operation {
            id: fresh_identity(),
            kind: OperationKind::Rename {
                entry_id: renamed.uuid,
                old_name,
                new_name,
            },
            timestamp: now,
        };
        self.journal_storage.append(op);
        let mut plan: Vec<FsAction> = Vec::new();
        plan.push(FsAction::WriteManifest);
        plan.push(FsAction::PersistIndex);
        plan.push(FsAction::PersistJournal);
        proof {
            let i = choose|i: int|
                {
                    &&& 0 <= i < old(self).index_storage.stash@.entries.len()
                    &&& old(self).index_storage.stash@.entries[i].uuid == renamed.uuid
                    &&& final(self).index_storage.stash@.entries == old(
                        self,
                    ).index_storage.stash@.entries.update(
                        i,
                        MetaView {
                            uuid: renamed.uuid,
                            name: Some(new_name@),
                            created: old(self).index_storage.stash@.entries[i].created,
                            total_size_bytes: crate::stash::applied_size(
                                old(self).index_storage.stash@.entries[i].total_size_bytes,
                                old(self).index_storage.stash.total_size_bytes,
                                0,
                            ),
                            item_count: crate::stash::applied_count(
                                old(self).index_storage.stash@.entries[i].item_count,
                                0,
                            ),
                        },
                    )
                };
            assert(crate::stash::applied_size(
                old(self).index_storage.stash@.entries[i].total_size_bytes,
                old(self).index_storage.stash.total_size_bytes,
                0,
            ) == old(self).index_storage.stash@.entries[i].total_size_bytes);
            assert(final(self).index_storage.stash@.entries == old(
                self,
            ).index_storage.stash@.entries.update(
                i,
                MetaView {
                    name: Some(new_name@),
                    ..old(self).index_storage.stash@.entries[i]
                },
            ));
        }
        Ok((renamed, plan))
    }
}

/// A positive name-match count puts a matching summary in the list.
proof fn lemma_name_match_gives_containment(s: Seq<MetaView>, n: Seq<char>)
    requires
        s.filter(|m: MetaView| name_matches(m, n)).len() > 0,
    ensures
        crate::stash::contains_name(s, n),
    decreases s.len(),
{
    reveal(Seq::filter);
    if s.len() > 0 {
        if name_matches(s.last(), n) {
            assert(name_matches(s[s.len() - 1], n));
        } else {
            lemma_name_match_gives_containment(s.drop_last(), n);
            let i = choose|i: int|
                0 <= i < s.drop_last().len() && name_matches(s.drop_last()[i], n);
            assert(name_matches(s[i], n));
        }
    }
}

} // verus!
