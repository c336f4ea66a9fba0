//! Entry lifecycle scenarios: create, resolve, restore, delete and clean,
//! driven through the manager with concrete identities and times.

use stash::errors::StashError;
use stash::ids::Identity;
use stash::index_storage::IndexStorage;
use stash::item::{Item, ItemKind};
use stash::journal_storage::JournalStorage;
use stash::manager::{EntryManager, FsAction, PushOptions, PopOptions, RelocateMode};
use stash::operation::OperationKind;

fn id(n: u64) -> Identity {
    Identity { hi: n, lo: n.wrapping_add(9) }
}

fn manager() -> EntryManager {
    EntryManager::new(
        "/store/entries".to_string(),
        IndexStorage::new("/store/index.json".to_string(), 0),
        JournalStorage::new("/store/journal.log".to_string()),
    )
}

fn file_item(path: &str, size: u64) -> Item {
    Item::new(
        path.to_string(),
        path.to_string(),
        ItemKind::File,
        size,
        0o644,
        1_700_000_000,
        None,
    )
}

fn push_options(copy: bool) -> PushOptions {
    PushOptions { name: None, copy, link: false, allow_dirs: false }
}

#[test]
fn create_registers_entry_and_orders_the_plan() {
    let mut m = manager();
    let items = vec![file_item("report.pdf", 100), file_item("notes/today.md", 50)];
    let (entry, plan) = m
        .create_entry_with(items, push_options(false), "/work".to_string(), id(1), 500)
        .expect("created");
    // The entry mirrors the snapshots exactly.
    assert_eq!(entry.uuid, id(1));
    assert_eq!(entry.name.as_deref(), Some("report.pdf"));
    assert_eq!(entry.created, 500);
    assert_eq!(entry.working_directory, "/work");
    assert_eq!(entry.total_size_bytes, 150);
    assert!(entry.was_destructive);
    assert_eq!(entry.items.len(), 2);
    assert_eq!(entry.items[0].original_path, "report.pdf");
    assert_eq!(entry.items[0].size_bytes, 100);
    assert_eq!(entry.items[0].permissions, 0o644);
    // The index holds exactly this entry.
    assert_eq!(m.index_storage.entry_count(), 1);
    assert_eq!(m.index_storage.total_size(), 150);
    let meta = m.require_entry(&id(1)).expect("registered");
    assert_eq!(meta.total_size_bytes, 150);
    assert_eq!(meta.item_count, 2);
    assert_eq!(meta.name.as_deref(), Some("report.pdf"));
    // The journal recorded a push, last.
    let ops = m.journal_storage.operations();
    assert_eq!(ops.len(), 1);
    assert!(matches!(ops[0].kind, OperationKind::Push { file_count: 2, .. }));
    // The plan relocates every item before the manifest, the manifest
    // before the index document, the journal document last.
    assert_eq!(plan.len(), 6);
    let expected_data_dir = format!("/store/entries/{}/data", id(1).to_hyphenated());
    match &plan[0] {
        FsAction::PrepareEntryDirs { data_dir } => assert_eq!(data_dir, &expected_data_dir),
        other => panic!("expected directory preparation, got {:?}", other),
    }
    match &plan[1] {
        FsAction::Stash { src, dest, mode } => {
            assert_eq!(src, "report.pdf");
            assert_eq!(dest, &format!("{}/report.pdf", expected_data_dir));
            assert_eq!(*mode, RelocateMode::Move);
        },
        other => panic!("expected a relocation, got {:?}", other),
    }
    assert!(matches!(plan[2], FsAction::Stash { .. }));
    assert!(matches!(plan[3], FsAction::WriteManifest));
    assert!(matches!(plan[4], FsAction::PersistIndex));
    assert!(matches!(plan[5], FsAction::PersistJournal));
}

#[test]
fn created_entry_resolves_by_name_and_by_identity() {
    let mut m = manager();
    let items = vec![file_item("report.pdf", 10)];
    m.create_entry_with(items, push_options(false), "/w".to_string(), id(2), 100)
        .expect("created");
    assert_eq!(m.resolve_identifier("report.pdf").expect("by name"), id(2));
    let text = id(2).to_hyphenated();
    assert_eq!(m.resolve_identifier(text.as_str()).expect("by identity"), id(2));
    match m.resolve_identifier("unknown") {
        Err(StashError::NotFound { .. }) => {},
        other => panic!("expected not found, got {:?}", other),
    }
}

#[test]
fn ambiguous_names_fail_rather_than_guess() {
    let mut m = manager();
    m.create_entry_with(
        vec![file_item("a.txt", 1)],
        PushOptions { name: Some("same".to_string()), copy: false, link: false, allow_dirs: false },
        "/w".to_string(),
        id(3),
        100,
    )
    .expect("created");
    m.create_entry_with(
        vec![file_item("b.txt", 1)],
        PushOptions { name: Some("same".to_string()), copy: false, link: false, allow_dirs: false },
        "/w".to_string(),
        id(4),
        101,
    )
    .expect("created");
    match m.resolve_identifier("same") {
        Err(StashError::AmbiguousOperation { .. }) => {},
        other => panic!("expected ambiguity, got {:?}", other),
    }
}

#[test]
fn copy_mode_plans_copy_and_move_mode_plans_move() {
    let mut m = manager();
    let (_, plan) = m
        .create_entry_with(
            vec![file_item("a.txt", 1)],
            push_options(true),
            "/w".to_string(),
            id(5),
            100,
        )
        .expect("created");
    assert!(matches!(plan[1], FsAction::Stash { mode: RelocateMode::Copy, .. }));
    let ops = m.journal_storage.operations();
    assert!(matches!(ops[ops.len() - 1].kind, OperationKind::Copy { .. }));

    let (entry, plan) = m
        .create_entry_with(
            vec![file_item("b.txt", 1)],
            push_options(false),
            "/w".to_string(),
            id(6),
            101,
        )
        .expect("created");
    assert!(matches!(plan[1], FsAction::Stash { mode: RelocateMode::Move, .. }));
    assert!(entry.was_destructive);
}

#[test]
fn create_rejects_bad_inputs() {
    let mut m = manager();
    // An empty path set is rejected before anything happens.
    match m.create_entry_with(Vec::new(), push_options(false), "/w".to_string(), id(7), 1) {
        Err(StashError::InvalidInput { .. }) => {},
        other => panic!("expected a rejection, got {:?}", other),
    }
    assert_eq!(m.index_storage.entry_count(), 0);
    assert!(m.journal_storage.operations().is_empty());
    // Symlinking a directory needs the explicit override.
    let dir = Item::new(
        "src".to_string(),
        "src".to_string(),
        ItemKind::Directory,
        0,
        0o755,
        0,
        None,
    );
    match m.create_entry_with(
        vec![dir],
        PushOptions { name: None, copy: false, link: true, allow_dirs: false },
        "/w".to_string(),
        id(7),
        1,
    ) {
        Err(StashError::InvalidInput { .. }) => {},
        other => panic!("expected a rejection, got {:?}", other),
    }
    // A duplicate identity cannot be registered twice.
    m.create_entry_with(vec![file_item("x", 1)], push_options(false), "/w".to_string(), id(8), 1)
        .expect("created");
    match m.create_entry_with(
        vec![file_item("y", 1)],
        push_options(false),
        "/w".to_string(),
        id(8),
        2,
    ) {
        Err(StashError::IOFailure { .. }) => {},
        other => panic!("expected an identity failure, got {:?}", other),
    }
}

#[test]
fn pop_without_force_fails_before_restoring_anything() {
    let mut m = manager();
    let items = vec![file_item("a.txt", 1), file_item("b.txt", 2)];
    let (entry, _) = m
        .create_entry_with(items, push_options(false), "/w".to_string(), id(9), 10)
        .expect("created");
    let journal_before = m.journal_storage.operations().len();
    // One destination pre-exists: the whole operation fails first.
    let r = m.pop_entry(
        &entry,
        PopOptions { destination: "/w".to_string(), copy: false, force: false },
        &vec![false, true],
    );
    match r {
        Err(StashError::Collision { path }) => assert_eq!(path, "/w/b.txt"),
        other => panic!("expected a collision, got {:?}", other),
    }
    // Nothing moved: the entry is still registered and nothing was logged.
    assert!(m.index_storage.contains(&id(9)));
    assert_eq!(m.journal_storage.operations().len(), journal_before);
    // With force the restoration proceeds and the entry leaves the store.
    let plan = m
        .pop_entry(
            &entry,
            PopOptions { destination: "/w".to_string(), copy: false, force: true },
            &vec![false, true],
        )
        .expect("forced");
    assert!(!m.index_storage.contains(&id(9)));
    assert!(matches!(plan[0], FsAction::Restore { copy: false, .. }));
    assert!(matches!(plan[2], FsAction::RemoveEntryDir { best_effort: false, .. }));
    assert!(matches!(plan[3], FsAction::PersistIndex));
    assert!(matches!(plan[4], FsAction::PersistJournal));
}

#[test]
fn pop_copy_keeps_the_entry() {
    let mut m = manager();
    let (entry, _) = m
        .create_entry_with(
            vec![file_item("a.txt", 1)],
            push_options(false),
            "/w".to_string(),
            id(10),
            10,
        )
        .expect("created");
    let plan = m
        .pop_entry(
            &entry,
            PopOptions { destination: "/elsewhere".to_string(), copy: true, force: false },
            &vec![false],
        )
        .expect("popped");
    assert!(m.index_storage.contains(&id(10)));
    assert_eq!(plan.len(), 2);
    match &plan[0] {
        FsAction::Restore { src, dest, permissions, copy, .. } => {
            assert_eq!(
                src,
                &format!("/store/entries/{}/data/a.txt", id(10).to_hyphenated())
            );
            assert_eq!(dest, "/elsewhere/a.txt");
            assert_eq!(*permissions, 0o644);
            assert!(*copy);
        },
        other => panic!("expected a restore, got {:?}", other),
    }
    assert!(matches!(plan[1], FsAction::PersistJournal));
}

#[test]
fn peek_never_touches_store_or_journal() {
    let mut m = manager();
    let (entry, _) = m
        .create_entry_with(
            vec![file_item("a.txt", 1)],
            push_options(false),
            "/w".to_string(),
            id(11),
            10,
        )
        .expect("created");
    let journal_before = m.journal_storage.operations().len();
    let plan = m.peek_entry(&entry, "/out", false, &vec![false]).expect("peeked");
    assert_eq!(plan.len(), 1);
    assert!(matches!(plan[0], FsAction::Restore { copy: true, .. }));
    assert!(m.index_storage.contains(&id(11)));
    assert_eq!(m.journal_storage.operations().len(), journal_before);
    // A collision without force fails a peek too.
    assert!(m.peek_entry(&entry, "/out", false, &vec![true]).is_err());
}

#[test]
fn restore_goes_to_the_recorded_working_directory() {
    let mut m = manager();
    let (entry, _) = m
        .create_entry_with(
            vec![file_item("a.txt", 1)],
            push_options(false),
            "/original/place".to_string(),
            id(12),
            10,
        )
        .expect("created");
    let plan = m.restore_entry(&entry, false, &vec![false]).expect("restored");
    match &plan[0] {
        FsAction::Restore { dest, .. } => assert_eq!(dest, "/original/place/a.txt"),
        other => panic!("expected a restore, got {:?}", other),
    }
    assert!(!m.index_storage.contains(&id(12)));
    let ops = m.journal_storage.operations();
    match &ops[ops.len() - 1].kind {
        OperationKind::Pop { destination, .. } => assert_eq!(destination, "/original/place"),
        other => panic!("expected a pop record, got {:?}", other),
    }
}

#[test]
fn delete_then_lookup_is_not_found() {
    let mut m = manager();
    m.create_entry_with(
        vec![file_item("a.txt", 5)],
        push_options(false),
        "/w".to_string(),
        id(13),
        10,
    )
    .expect("created");
    let plan = m.delete_entry(&id(13)).expect("deleted");
    assert!(matches!(plan[0], FsAction::RemoveEntryDir { best_effort: false, .. }));
    assert!(matches!(plan[1], FsAction::PersistIndex));
    assert!(matches!(plan[2], FsAction::PersistJournal));
    // The identity no longer resolves.
    match m.require_entry(&id(13)) {
        Err(StashError::NotFound { .. }) => {},
        other => panic!("expected not found, got {:?}", other),
    }
    // Deleting again reports the same condition.
    assert!(matches!(m.delete_entry(&id(13)), Err(StashError::NotFound { .. })));
    let ops = m.journal_storage.operations();
    assert!(matches!(ops[ops.len() - 1].kind, OperationKind::Drop { deleted: true, .. }));
}

#[test]
fn clean_removes_exactly_strictly_older_entries() {
    let now = 1000 * 86400;
    let mut m = manager();
    m.create_entry_with(
        vec![file_item("old.txt", 30)],
        push_options(false),
        "/w".to_string(),
        id(14),
        now - 31 * 86400,
    )
    .expect("created");
    m.create_entry_with(
        vec![file_item("edge.txt", 20)],
        push_options(false),
        "/w".to_string(),
        id(15),
        now - 30 * 86400,
    )
    .expect("created");
    m.create_entry_with(
        vec![file_item("new.txt", 10)],
        push_options(false),
        "/w".to_string(),
        id(16),
        now - 86400,
    )
    .expect("created");
    let (removed, plan) = m.clean_old_entries_at(30, now);
    // Strictly older than the cutoff: the entry created exactly at the
    // cutoff stays.
    assert_eq!(removed, vec![id(14)]);
    assert!(m.index_storage.contains(&id(15)));
    assert!(m.index_storage.contains(&id(16)));
    // The index total equals the sum of what remains.
    assert_eq!(m.index_storage.total_size(), 30);
    // The index decision is committed before any directory removal.
    assert!(matches!(plan[0], FsAction::PersistIndex));
    assert!(matches!(plan[1], FsAction::RemoveEntryDir { best_effort: true, .. }));
    assert!(matches!(plan[2], FsAction::PersistJournal));
    let ops = m.journal_storage.operations();
    assert!(matches!(
        ops[ops.len() - 1].kind,
        OperationKind::Clean { removed_count: 1, days: 30 }
    ));
}

#[test]
fn rename_updates_manifest_index_and_journal() {
    let mut m = manager();
    let (entry, _) = m
        .create_entry_with(
            vec![file_item("a.txt", 1)],
            push_options(false),
            "/w".to_string(),
            id(17),
            10,
        )
        .expect("created");
    let (renamed, plan) = m.rename_entry(entry, "fresh".to_string()).expect("renamed");
    assert_eq!(renamed.name.as_deref(), Some("fresh"));
    assert_eq!(m.resolve_identifier("fresh").expect("by new name"), id(17));
    assert!(matches!(plan[0], FsAction::WriteManifest));
    assert!(matches!(plan[1], FsAction::PersistIndex));
    assert!(matches!(plan[2], FsAction::PersistJournal));
    let ops = m.journal_storage.operations();
    match &ops[ops.len() - 1].kind {
        OperationKind::Rename { old_name, new_name, .. } => {
            assert_eq!(old_name, "a.txt");
            assert_eq!(new_name, "fresh");
        },
        other => panic!("expected a rename record, got {:?}", other),
    }
}

#[test]
fn push_then_pop_scenario() {
    // Push a single file with no name, then restore it with no arguments:
    // the entry takes the file's name, comes back to the working
    // directory, and disappears from the listing.
    let mut m = manager();
    let (entry, _) = m
        .create_entry_with(
            vec![file_item("report.pdf", 2048)],
            push_options(false),
            "/home/user/desk".to_string(),
            id(18),
            700,
        )
        .expect("pushed");
    assert_eq!(entry.name.as_deref(), Some("report.pdf"));
    assert_eq!(m.list_entries().len(), 1);
    // No identifier: the most recent entry is the one to restore.
    let recent = m.most_recent_entry().expect("one entry").uuid;
    assert_eq!(recent, id(18));
    let plan = m
        .pop_entry(
            &entry,
            PopOptions { destination: "/home/user/desk".to_string(), copy: false, force: false },
            &vec![false],
        )
        .expect("popped");
    match &plan[0] {
        FsAction::Restore { dest, .. } => assert_eq!(dest, "/home/user/desk/report.pdf"),
        other => panic!("expected a restore, got {:?}", other),
    }
    assert!(m.list_entries().is_empty());
}

#[test]
fn entry_accessors() {
    let mut m = manager();
    let (entry, _) = m
        .create_entry_with(
            vec![file_item("a.txt", 1)],
            PushOptions { name: None, copy: false, link: false, allow_dirs: false },
            "/w".to_string(),
            id(19),
            1_700_000_000,
        )
        .expect("created");
    assert_eq!(entry.short_id(), id(19).short());
    assert_eq!(entry.display_name(), "a.txt");
    assert_eq!(entry.age_hours(1_700_000_000 + 7200), 2);
    assert_eq!(entry.age_days(1_700_000_000 + 3 * 86400), 3);
    assert!(entry.get_item("a.txt").is_some());
    assert!(entry.get_item("b.txt").is_none());
    let found = m.find_entries_containing_path(&vec![entry], "a.txt");
    assert_eq!(found, vec![id(19)]);
}
