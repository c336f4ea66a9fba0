//! The metadata index and the operation journal on concrete values.

use stash::ids::Identity;
use stash::index_storage::IndexStorage;
use stash::journal_storage::JournalStorage;
use stash::operation::{Operation, OperationKind};
use stash::stash::Stash;

fn id(n: u64) -> Identity {
    Identity { hi: n, lo: n.wrapping_mul(31) }
}

fn storage_with(entries: &[(u64, Option<&str>, i64, u64, usize)]) -> IndexStorage {
    let mut s = IndexStorage::new("index.json".to_string(), 1000);
    for (n, name, created, size, count) in entries {
        s.add_entry(id(*n), name.map(|x| x.to_string()), *size, *count, *created);
    }
    s
}

#[test]
fn index_add_and_totals() {
    let s = storage_with(&[(1, Some("one"), 10, 100, 2), (2, None, 20, 50, 1)]);
    assert_eq!(s.entry_count(), 2);
    assert_eq!(s.total_size(), 150);
    assert!(!s.is_empty());
    assert_eq!(s.index_path(), "index.json");
    assert!(s.contains(&id(1)));
    assert!(!s.contains(&id(9)));
}

#[test]
fn index_remove_updates_total() {
    let mut s = storage_with(&[(1, Some("one"), 10, 100, 2), (2, Some("two"), 20, 50, 1)]);
    let removed = s.remove_entry(&id(1), 30).expect("present");
    assert_eq!(removed.total_size_bytes, 100);
    assert_eq!(s.total_size(), 50);
    assert_eq!(s.entry_count(), 1);
    assert!(s.remove_entry(&id(1), 31).is_none());
    assert_eq!(s.total_size(), 50);
}

#[test]
fn index_lookup_by_name_and_identifier() {
    let s = storage_with(&[(1, Some("work"), 10, 5, 1), (2, Some("play"), 20, 7, 1)]);
    assert_eq!(s.find_by_name("work").expect("found").uuid, id(1));
    assert!(s.find_by_name("missing").is_none());
    // By canonical identity rendering.
    let text = id(2).to_hyphenated();
    assert_eq!(s.find_by_identifier(text.as_str()).expect("found").uuid, id(2));
    // By exact name.
    assert_eq!(s.find_by_identifier("play").expect("found").uuid, id(2));
    assert!(s.find_by_identifier("nothing").is_none());
}

#[test]
fn index_search_by_name_and_identity_prefix() {
    let s = storage_with(&[
        (1, Some("Quarterly Report"), 10, 5, 1),
        (2, Some("notes"), 20, 7, 1),
        (3, None, 30, 9, 1),
    ]);
    let hits = s.search("report");
    assert_eq!(hits.len(), 1);
    assert_eq!(hits[0].uuid, id(1));
    // The identity's canonical rendering starts with the pattern.
    let prefix: String = id(3).to_hyphenated().chars().take(8).collect();
    let hits = s.search(prefix.as_str());
    assert!(hits.iter().any(|m| m.uuid == id(3)));
    assert!(s.search("zzz").is_empty());
}

#[test]
fn index_age_eviction_is_exact() {
    let now = 100 * 86400;
    let mut s = storage_with(&[
        (1, Some("old"), now - 40 * 86400, 10, 1),
        (2, Some("young"), now - 5 * 86400, 20, 1),
        (3, Some("ancient"), now - 400 * 86400, 30, 1),
    ]);
    let removed = s.remove_older_than_days(30, now);
    assert_eq!(removed, vec![id(1), id(3)]);
    assert_eq!(s.entry_count(), 1);
    assert_eq!(s.get_metadata(&id(2)).expect("kept").total_size_bytes, 20);
    // The aggregate equals the sum of what remains.
    assert_eq!(s.total_size(), 20);
    // A second pass removes nothing.
    assert!(s.remove_older_than_days(30, now).is_empty());
}

#[test]
fn index_clear_and_set_name() {
    let mut s = storage_with(&[(1, Some("one"), 10, 100, 2)]);
    s.set_name(Some("box".to_string()), 50);
    assert_eq!(s.index().name.as_deref(), Some("box"));
    s.clear(60);
    assert!(s.is_empty());
    assert_eq!(s.total_size(), 0);
    assert_eq!(s.index().name.as_deref(), Some("box"));
}

#[test]
fn index_update_entry_metadata_clamps() {
    let mut s = storage_with(&[(1, Some("one"), 10, 100, 2)]);
    assert!(s.update_entry_metadata(&id(1), Some("renamed".to_string()), 50, 3, 20));
    let m = s.get_metadata(&id(1)).expect("present");
    assert_eq!(m.name.as_deref(), Some("renamed"));
    assert_eq!(m.total_size_bytes, 150);
    assert_eq!(m.item_count, 5);
    assert_eq!(s.total_size(), 150);
    // A decrease larger than the entry clamps at zero.
    assert!(s.update_entry_metadata(&id(1), None, -1000, -10, 21));
    let m = s.get_metadata(&id(1)).expect("present");
    assert!(m.name.is_none());
    assert_eq!(m.total_size_bytes, 0);
    assert_eq!(m.item_count, 0);
    assert_eq!(s.total_size(), 0);
    // An unknown identity reports failure.
    assert!(!s.update_entry_metadata(&id(9), None, 1, 1, 22));
}

#[test]
fn index_reload_degrades_broken_documents() {
    let mut s = IndexStorage::new("index.json".to_string(), 1000);
    // A registry whose aggregate disagrees with its summaries is refused
    // and degrades to an empty default.
    let mut broken = Stash::new(None, 0);
    broken.total_size_bytes = 999;
    assert!(!s.reload(broken, 1));
    assert!(s.is_empty());
    // A consistent registry is taken as-is.
    let mut good = Stash::new(Some("kept".to_string()), 0);
    good.add_entry(id(4), Some("x".to_string()), 42, 1, 5);
    assert!(s.reload(good, 2));
    assert_eq!(s.entry_count(), 1);
    assert_eq!(s.total_size(), 42);
}

#[test]
fn journal_append_last_and_clear() {
    let mut j = JournalStorage::new("journal.log".to_string());
    assert!(j.last().is_none());
    j.append(Operation::new_at(
        OperationKind::Push { entry_id: id(1), file_count: 3 },
        id(10),
        100,
    ));
    j.append(Operation::new_at(
        OperationKind::Drop { entry_id: id(1), deleted: true },
        id(11),
        200,
    ));
    assert_eq!(j.operations().len(), 2);
    let last = j.last().expect("non-empty");
    assert_eq!(last.timestamp, 200);
    j.clear();
    assert!(j.operations().is_empty());
    assert_eq!(j.log_path(), "journal.log");
}

#[test]
fn journal_recent_returns_append_order_suffix() {
    let mut j = JournalStorage::new("journal.log".to_string());
    for t in 0..5 {
        j.append(Operation::new_at(
            OperationKind::Clean { removed_count: t as usize, days: 1 },
            id(20 + t as u64),
            t,
        ));
    }
    let two = j.recent(2);
    assert_eq!(two.len(), 2);
    assert_eq!(two[0].timestamp, 3);
    assert_eq!(two[1].timestamp, 4);
    assert_eq!(j.recent(0).len(), 0);
    assert_eq!(j.recent(99).len(), 5);
}

#[test]
fn journal_since_and_for_entry() {
    let mut j = JournalStorage::new("journal.log".to_string());
    j.append(Operation::new_at(OperationKind::Push { entry_id: id(1), file_count: 1 }, id(30), 10));
    j.append(Operation::new_at(OperationKind::Push { entry_id: id(2), file_count: 2 }, id(31), 20));
    j.append(Operation::new_at(
        OperationKind::Pop { entry_id: id(1), destination: "/tmp".to_string() },
        id(32),
        30,
    ));
    let newer = j.since(15);
    assert_eq!(newer.len(), 2);
    let about_one = j.for_entry(&id(1));
    assert_eq!(about_one.len(), 2);
    assert_eq!(about_one[0].timestamp, 10);
    assert_eq!(about_one[1].timestamp, 30);
}

#[test]
fn journal_compact_keeps_global_records() {
    let mut j = JournalStorage::new("journal.log".to_string());
    j.append(Operation::new_at(OperationKind::Push { entry_id: id(1), file_count: 1 }, id(40), 1));
    j.append(Operation::new_at(OperationKind::Push { entry_id: id(2), file_count: 1 }, id(41), 2));
    j.append(Operation::new_at(OperationKind::Clean { removed_count: 0, days: 30 }, id(42), 3));
    j.compact(&vec![id(2)]);
    assert_eq!(j.operations().len(), 2);
    assert_eq!(j.operations()[0].timestamp, 2);
    assert_eq!(j.operations()[1].timestamp, 3);
}

#[test]
fn operation_descriptions() {
    let e = id(0xabc);
    let short: String = e.to_hyphenated().chars().take(6).collect();
    let push = Operation::new_at(OperationKind::Push { entry_id: e, file_count: 3 }, id(50), 0);
    assert_eq!(push.describe(), format!("Pushed 3 file(s) to entry {}", short));
    let pop = Operation::new_at(
        OperationKind::Pop { entry_id: e, destination: "/work".to_string() },
        id(51),
        0,
    );
    assert_eq!(pop.describe(), format!("Popped entry {} to /work", short));
    let drop_kept = Operation::new_at(OperationKind::Drop { entry_id: e, deleted: false }, id(52), 0);
    assert_eq!(drop_kept.describe(), format!("Dropped entry {} to disk", short));
    let clean = Operation::new_at(OperationKind::Clean { removed_count: 2, days: 30 }, id(53), 0);
    assert_eq!(clean.describe(), "Cleaned 2 entries older than 30 days");
    let rename = Operation::new_at(
        OperationKind::Rename {
            entry_id: e,
            old_name: "a".to_string(),
            new_name: "b".to_string(),
        },
        id(54),
        0,
    );
    assert_eq!(rename.describe(), format!("Renamed entry {} from 'a' to 'b'", short));
    let dump = Operation::new_at(OperationKind::Dump { entry_count: 4, deleted: true }, id(55), 0);
    assert_eq!(dump.describe(), "Dumped and deleted 4 entries");
    let import = Operation::new_at(
        OperationKind::Import { path: "in.tar".to_string(), entry_count: 2 },
        id(56),
        0,
    );
    assert_eq!(import.describe(), "Imported 2 entries from in.tar");
}

#[test]
fn operation_classification() {
    let e = id(7);
    let push = Operation::new_at(OperationKind::Push { entry_id: e, file_count: 1 }, id(60), 0);
    assert!(push.is_undoable());
    assert_eq!(push.entry_id(), Some(e));
    assert!(push.involves_entry(&e));
    assert!(!push.involves_entry(&id(8)));
    let clean = Operation::new_at(OperationKind::Clean { removed_count: 0, days: 1 }, id(61), 0);
    assert!(!clean.is_undoable());
    assert_eq!(clean.entry_id(), None);
    let deleted = Operation::new_at(OperationKind::Drop { entry_id: e, deleted: true }, id(62), 0);
    assert!(!deleted.is_undoable());
}

#[test]
fn sorted_views() {
    let s = storage_with(&[
        (1, Some("beta"), 100, 5, 1),
        (2, None, 300, 50, 1),
        (3, Some("alpha"), 200, 5, 1),
        (4, Some("Alpha"), 150, 20, 1),
    ]);
    // Newest first.
    let by_date: Vec<u64> = s.entries_by_date().iter().map(|m| m.uuid.hi).collect();
    assert_eq!(by_date, vec![2, 3, 4, 1]);
    // Largest first; the two equally-sized entries keep registration order.
    let by_size: Vec<u64> = s.entries_by_size().iter().map(|m| m.uuid.hi).collect();
    assert_eq!(by_size, vec![2, 4, 1, 3]);
    // Names lexicographically by code point; the unnamed entry comes last.
    let by_name: Vec<u64> = s.entries_by_name().iter().map(|m| m.uuid.hi).collect();
    assert_eq!(by_name, vec![4, 3, 1, 2]);
}
