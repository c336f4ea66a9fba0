//! The persisted registry: the in-memory index plus the path its document
//! lives at.  Every mutator here leaves the registry ready to be persisted;
//! the shell writes the document wholesale after each mutating call.

use vstd::prelude::*;
use crate::ids::{Identity, id_chars};
use crate::search::lower_of;
use crate::stash::{
    Stash, StashView, EntryMetadata, MetaView, metas_view, contains_id, contains_name,
    name_matches, search_matches, older_than, applied_size, applied_count, date_before,
    size_before, name_before,
};
use crate::text::{str_le, lemma_lex_le_total, lemma_lex_le_trans};
use vstd::relations::sorted_by;
use vstd::multiset::Multiset;

verus! {

/// The registry and its document path.
#[derive(Debug)]
pub struct IndexStorage {
    pub stash: Stash,
    pub stash_file: String,
}

impl IndexStorage {
    /// An empty registry over the given document path, stamped with the
    /// given time; reading the document back is the shell's part.
    pub fn new(stash_file: String, now: i64) -> (r: IndexStorage)
        ensures
            r.stash.wf(),
            r.stash@.entries == Seq::<MetaView>::empty(),
            r.stash@.name is None,
            r.stash.created == now,
            r.stash_file@ == stash_file@,
    {
        IndexStorage { stash: Stash::new(None, now), stash_file }
    }

    /// Installs a registry read back from the document; a registry that
    /// breaks the invariants degrades to an empty default rather than
    /// refusing to start.  Returns whether the loaded value was taken.
    pub fn reload(&mut self, loaded: Stash, now: i64) -> (r: bool)
        ensures
            final(self).stash.wf(),
            final(self).stash_file@ == old(self).stash_file@,
            r == loaded.wf(),
            r ==> final(self).stash@ == loaded@,
            !r ==> final(self).stash@.entries == Seq::<MetaView>::empty(),
    {
        if loaded.check_wf() {
            self.stash = loaded;
            true
        } else {
            self.stash = Stash::new(None, now);
            false
        }
    }

    /// The whole registry.
    pub fn index(&self) -> (r: &Stash)
        ensures
            r@ == self.stash@,
    {
        &self.stash
    }

    /// The whole registry, for direct mutation; the caller answers for the
    /// invariants afterwards.
    pub fn index_mut(&mut self) -> (r: &mut Stash)
        ensures
            *r == old(self).stash,
            final(self).stash == *final(r),
            final(self).stash_file@ == old(self).stash_file@,
    {
        &mut self.stash
    }

    /// Registers a new entry's summary.
    pub fn add_entry(
        &mut self,
        uuid: Identity,
        name: Option<String>,
        size: u64,
        item_count: usize,
        now: i64,
    )
        requires
            old(self).stash.wf(),
            !contains_id(old(self).stash@.entries, uuid),
            old(self).stash.total_size_bytes + size <= u64::MAX,
        ensures
            final(self).stash.wf(),
            final(self).stash@.entries == old(self).stash@.entries.push(
                MetaView {
                    uuid,
                    name: crate::item::opt_view(name),
                    created: now,
                    total_size_bytes: size,
                    item_count: item_count as int,
                },
            ),
            final(self).stash.total_size_bytes == old(self).stash.total_size_bytes + size,
            final(self).stash_file@ == old(self).stash_file@,
    {
        self.stash.add_entry(uuid, name, size, item_count, now);
    }

    /// Removes the summary with the given identity, if present.
    pub fn remove_entry(&mut self, uuid: &Identity, now: i64) -> (r: Option<EntryMetadata>)
        requires
            old(self).stash.wf(),
        ensures
            final(self).stash.wf(),
            final(self).stash_file@ == old(self).stash_file@,
            !contains_id(old(self).stash@.entries, *uuid) ==> r is None && final(self).stash@
                == old(self).stash@,
            contains_id(old(self).stash@.entries, *uuid) ==> {
                &&& r matches Some(m)
                &&& exists|i: int|
                    {
                        &&& 0 <= i < old(self).stash@.entries.len()
                        &&& old(self).stash@.entries[i].uuid == *uuid
                        &&& m@ == old(self).stash@.entries[i]
                        &&& final(self).stash@.entries == old(self).stash@.entries.remove(i)
                    }
                &&& !contains_id(final(self).stash@.entries, *uuid)
                &&& final(self).stash.total_size_bytes == old(self).stash.total_size_bytes
                    - m.total_size_bytes
            },
    {
        self.stash.remove_entry(uuid, now)
    }

    /// The summary with the given identity, if present.
    pub fn get_metadata(&self, uuid: &Identity) -> (r: Option<&EntryMetadata>)
        ensures
            r matches Some(m) ==> exists|i: int|
                0 <= i < self.stash@.entries.len() && self.stash@.entries[i] == m@ && m.uuid
                    == *uuid,
            r is None ==> !contains_id(self.stash@.entries, *uuid),
    {
        self.stash.get_metadata(uuid)
    }

    /// The first summary with exactly the given name, if any.
    pub fn find_by_name(&self, name: &str) -> (r: Option<&EntryMetadata>)
        ensures
            r matches Some(m) ==> exists|i: int|
                0 <= i < self.stash@.entries.len() && self.stash@.entries[i] == m@
                    && name_matches(m@, name@),
            r is None ==> !contains_name(self.stash@.entries, name@),
    {
        self.stash.find_by_name(name)
    }

    /// The summary for a human-supplied identifier: by identity first, by
    /// exact name second.
    pub fn find_by_identifier(&self, identifier: &str) -> (r: Option<&EntryMetadata>)
        ensures
            r matches Some(m) ==> exists|i: int|
                0 <= i < self.stash@.entries.len() && self.stash@.entries[i] == m@ && (
                identifier@ == id_chars(m.uuid.hi, m.uuid.lo) || name_matches(m@, identifier@)),
            r is None ==> forall|i: int|
                0 <= i < self.stash@.entries.len() ==> identifier@ != id_chars(
                    #[trigger] self.stash@.entries[i].uuid.hi,
                    self.stash@.entries[i].uuid.lo,
                ) && !name_matches(self.stash@.entries[i], identifier@),
    {
        let r = self.stash.find_by_identifier(identifier);
        proof {
            if r is None {
                assert forall|i: int|
                    0 <= i < self.stash@.entries.len() implies identifier@ != id_chars(
                    #[trigger] self.stash@.entries[i].uuid.hi,
                    self.stash@.entries[i].uuid.lo,
                ) && !name_matches(self.stash@.entries[i], identifier@) by {
                    let m = self.stash@.entries[i];
                    assert(identifier@ != id_chars(m.uuid.hi, m.uuid.lo));
                    assert(!name_matches(m, identifier@));
                }
            }
        }
        r
    }

    /// Every summary matching the pattern, ignoring case.
    pub fn search(&self, pattern: &str) -> (r: Vec<EntryMetadata>)
        ensures
            metas_view(r@) == self.stash@.entries.filter(
                |m: MetaView| search_matches(m, lower_of(pattern@)),
            ),
    {
        self.stash.search(pattern)
    }

    /// Evicts summaries created strictly before `now` minus the given
    /// number of days, returning the evicted identities.
    pub fn remove_older_than_days(&mut self, days: i64, now: i64) -> (r: Vec<Identity>)
        requires
            old(self).stash.wf(),
        ensures
            final(self).stash.wf(),
            final(self).stash_file@ == old(self).stash_file@,
            final(self).stash@.entries == old(self).stash@.entries.filter(
                |m: MetaView| !older_than(m, now - days * 86400),
            ),
            r@ == old(self).stash@.entries.filter(
                |m: MetaView| older_than(m, now - days * 86400),
            ).map_values(|m: MetaView| m.uuid),
    {
        self.stash.remove_older_than_days(days, now)
    }

    /// The most recently registered summary, if any.
    pub fn most_recent(&self) -> (r: Option<&EntryMetadata>)
        ensures
            self.stash@.entries.len() == 0 ==> r is None,
            self.stash@.entries.len() > 0 ==> (r matches Some(m) && m@
                == self.stash@.entries.last()),
    {
        self.stash.most_recent()
    }

    /// Every summary, in registration order.
    pub fn list_all(&self) -> (r: &Vec<EntryMetadata>)
        ensures
            metas_view(r@) == self.stash@.entries,
    {
        &self.stash.entries
    }

    /// How many entries the registry holds.
    pub fn entry_count(&self) -> (r: usize)
        ensures
            r == self.stash@.entries.len(),
    {
        self.stash.len()
    }

    /// Whether the registry holds no entry.
    pub fn is_empty(&self) -> (r: bool)
        ensures
            r == (self.stash@.entries.len() == 0),
    {
        self.stash.is_empty()
    }

    /// The total size of all entries, in bytes.
    pub fn total_size(&self) -> (r: u64)
        ensures
            r == self.stash.total_size_bytes,
    {
        self.stash.total_size_bytes
    }

    /// The path the registry document lives at.
    pub fn index_path(&self) -> (r: &str)
        ensures
            r@ == self.stash_file@,
    {
        self.stash_file.as_str()
    }

    /// Forgets every summary, keeping the registry's name.
    pub fn clear(&mut self, now: i64)
        ensures
            final(self).stash.wf(),
            final(self).stash@.entries == Seq::<MetaView>::empty(),
            final(self).stash@.name == old(self).stash@.name,
            final(self).stash_file@ == old(self).stash_file@,
    {
        let name = crate::item::clone_opt_string(&self.stash.name);
        self.stash = Stash::new(name, now);
    }

    /// Renames the registry itself.
    pub fn set_name(&mut self, name: Option<String>, now: i64)
        requires
            old(self).stash.wf(),
        ensures
            final(self).stash.wf(),
            final(self).stash@ == (StashView {
                name: crate::item::opt_view(name),
                updated: now,
                ..old(self).stash@
            }),
            final(self).stash_file@ == old(self).stash_file@,
    {
        self.stash.name = name;
        self.stash.touch(now);
    }

    /// Whether an entry with the given identity exists.
    pub fn contains(&self, uuid: &Identity) -> (r: bool)
        ensures
            r == contains_id(self.stash@.entries, *uuid),
    {
        match self.stash.get_metadata(uuid) {
            Some(_) => true,
            None => false,
        }
    }

    /// Rewrites one summary in place, shifting its size and item count by
    /// clamped deltas; reports whether the identity was found.
    pub fn update_entry_metadata(
        &mut self,
        uuid: &Identity,
        name: Option<String>,
        size_delta: i64,
        item_count_delta: isize,
        now: i64,
    ) -> (r: bool)
        requires
            old(self).stash.wf(),
        ensures
            final(self).stash.wf(),
            final(self).stash_file@ == old(self).stash_file@,
            r == contains_id(old(self).stash@.entries, *uuid),
            !r ==> final(self).stash@ == old(self).stash@,
            r ==> exists|i: int|
                {
                    &&& 0 <= i < old(self).stash@.entries.len()
                    &&& old(self).stash@.entries[i].uuid == *uuid
                    &&& final(self).stash@.entries == old(self).stash@.entries.update(
                        i,
                        MetaView {
                            uuid: *uuid,
                            name: crate::item::opt_view(name),
                            created: old(self).stash@.entries[i].created,
                            total_size_bytes: applied_size(
                                old(self).stash@.entries[i].total_size_bytes,
                                old(self).stash.total_size_bytes,
                                size_delta,
                            ),
                            item_count: applied_count(
                                old(self).stash@.entries[i].item_count,
                                item_count_delta,
                            ),
                        },
                    )
                },
    {
        self.stash.update_entry_metadata(uuid, name, size_delta, item_count_delta, now)
    }

    /// Every summary, newest first; ties keep their registration order.
    pub fn entries_by_date(&self) -> (r: Vec<EntryMetadata>)
        ensures
            sorted_by(metas_view(r@), |a: MetaView, b: MetaView| date_before(a, b)),
            metas_view(r@).to_multiset() == self.stash@.entries.to_multiset(),
    {
        broadcast use vstd::seq_lib::group_to_multiset_ensures;

        let ghost entries = self.stash@.entries;
        let ghost leq = |a: MetaView, b: MetaView| date_before(a, b);
        let mut r: Vec<EntryMetadata> = Vec::new();
        let mut i: usize = 0;
        proof {
            assert(metas_view(r@) =~= Seq::<MetaView>::empty());
            assert(entries.take(0) =~= Seq::<MetaView>::empty());
        }
        while i < self.stash.entries.len()
            invariant
                entries == self.stash@.entries,
                i <= self.stash.entries@.len(),
                sorted_by(metas_view(r@), |a: MetaView, b: MetaView| date_before(a, b)),
                metas_view(r@).to_multiset() == entries.take(i as int).to_multiset(),
            decreases self.stash.entries@.len() - i,
        {
            broadcast use vstd::seq_lib::group_to_multiset_ensures;

            let m = self.stash.entries[i].clone();
            proof {
                assert(entries[i as int] == self.stash.entries@[i as int]@);
            }
            let pos = date_insert_pos(&r, &m);
            let ghost pre = metas_view(r@);
            proof {
                lemma_sorted_insert(
                    pre,
                    pos as int,
                    m@,
                    |a: MetaView, b: MetaView| date_before(a, b),
                );
                lemma_insert_multiset(pre, pos as int, m@);
            }
            r.insert(pos, m);
            i = i + 1;
            proof {
                assert(metas_view(r@) =~= pre.insert(pos as int, entries[i - 1]));
                assert(entries.take(i as int).drop_last() =~= entries.take(i - 1));
                assert(entries.take(i as int) =~= entries.take(i - 1).push(entries[i - 1]));
            }
        }
        proof {
            assert(entries.take(entries.len() as int) =~= entries);
        }
        r
    }

    /// Every summary, largest first; ties keep their registration order.
    pub fn entries_by_size(&self) -> (r: Vec<EntryMetadata>)
        ensures
            sorted_by(metas_view(r@), |a: MetaView, b: MetaView| size_before(a, b)),
            metas_view(r@).to_multiset() == self.stash@.entries.to_multiset(),
    {
        broadcast use vstd::seq_lib::group_to_multiset_ensures;

        let ghost entries = self.stash@.entries;
        let mut r: Vec<EntryMetadata> = Vec::new();
        let mut i: usize = 0;
        proof {
            assert(metas_view(r@) =~= Seq::<MetaView>::empty());
            assert(entries.take(0) =~= Seq::<MetaView>::empty());
        }
        while i < self.stash.entries.len()
            invariant
                entries == self.stash@.entries,
                i <= self.stash.entries@.len(),
                sorted_by(metas_view(r@), |a: MetaView, b: MetaView| size_before(a, b)),
                metas_view(r@).to_multiset() == entries.take(i as int).to_multiset(),
            decreases self.stash.entries@.len() - i,
        {
            broadcast use vstd::seq_lib::group_to_multiset_ensures;

            let m = self.stash.entries[i].clone();
            proof {
                assert(entries[i as int] == self.stash.entries@[i as int]@);
            }
            let pos = size_insert_pos(&r, &m);
            let ghost pre = metas_view(r@);
            proof {
                lemma_sorted_insert(
                    pre,
                    pos as int,
                    m@,
                    |a: MetaView, b: MetaView| size_before(a, b),
                );
                lemma_insert_multiset(pre, pos as int, m@);
            }
            r.insert(pos, m);
            i = i + 1;
            proof {
                assert(metas_view(r@) =~= pre.insert(pos as int, entries[i - 1]));
                assert(entries.take(i as int).drop_last() =~= entries.take(i - 1));
                assert(entries.take(i as int) =~= entries.take(i - 1).push(entries[i - 1]));
            }
        }
        proof {
            assert(entries.take(entries.len() as int) =~= entries);
        }
        r
    }

    /// Every summary in name order, unnamed entries after named ones; ties
    /// keep their registration order.
    pub fn entries_by_name(&self) -> (r: Vec<EntryMetadata>)
        ensures
            sorted_by(metas_view(r@), |a: MetaView, b: MetaView| name_before(a, b)),
            metas_view(r@).to_multiset() == self.stash@.entries.to_multiset(),
    {
        broadcast use vstd::seq_lib::group_to_multiset_ensures;

        let ghost entries = self.stash@.entries;
        let mut r: Vec<EntryMetadata> = Vec::new();
        let mut i: usize = 0;
        proof {
            assert(metas_view(r@) =~= Seq::<MetaView>::empty());
            assert(entries.take(0) =~= Seq::<MetaView>::empty());
        }
        while i < self.stash.entries.len()
            invariant
                entries == self.stash@.entries,
                i <= self.stash.entries@.len(),
                sorted_by(metas_view(r@), |a: MetaView, b: MetaView| name_before(a, b)),
                metas_view(r@).to_multiset() == entries.take(i as int).to_multiset(),
            decreases self.stash.entries@.len() - i,
        {
            broadcast use vstd::seq_lib::group_to_multiset_ensures;

            let m = self.stash.entries[i].clone();
            proof {
                assert(entries[i as int] == self.stash.entries@[i as int]@);
            }
            let pos = name_insert_pos(&r, &m);
            let ghost pre = metas_view(r@);
            proof {
                assert forall|x: MetaView, y: MetaView, z: MetaView|
                    #[trigger] name_before(x, y) && #[trigger] name_before(y, z) implies
                    name_before(x, z) by {
                    lemma_name_order(x, y, z);
                }
                if (pos as int) < pre.len() {
                    lemma_name_order(pre[pos as int], m@, m@);
                }
                lemma_sorted_insert(
                    pre,
                    pos as int,
                    m@,
                    |a: MetaView, b: MetaView| name_before(a, b),
                );
                lemma_insert_multiset(pre, pos as int, m@);
            }
            r.insert(pos, m);
            i = i + 1;
            proof {
                assert(metas_view(r@) =~= pre.insert(pos as int, entries[i - 1]));
                assert(entries.take(i as int).drop_last() =~= entries.take(i - 1));
                assert(entries.take(i as int) =~= entries.take(i - 1).push(entries[i - 1]));
            }
        }
        proof {
            assert(entries.take(entries.len() as int) =~= entries);
        }
        r
    }
}


/// Inserting an element adds exactly it to the sequence's contents.
proof fn lemma_insert_multiset(s: Seq<MetaView>, pos: int, m: MetaView)
    requires
        0 <= pos <= s.len(),
    ensures
        s.insert(pos, m).to_multiset() == s.to_multiset().insert(m),
{
    broadcast use vstd::seq_lib::group_to_multiset_ensures;
    broadcast use vstd::multiset::group_multiset_axioms;

    let single = Seq::<MetaView>::empty().push(m);
    assert(s.insert(pos, m) =~= s.take(pos) + (single + s.skip(pos)));
    vstd::seq_lib::lemma_multiset_commutative(s.take(pos), single + s.skip(pos));
    vstd::seq_lib::lemma_multiset_commutative(single, s.skip(pos));
    vstd::seq_lib::lemma_multiset_commutative(s.take(pos), s.skip(pos));
    assert(s.take(pos) + s.skip(pos) =~= s);
    assert(Seq::<MetaView>::empty().to_multiset() =~= Multiset::<MetaView>::empty());
    assert(single.to_multiset() =~= Multiset::<MetaView>::empty().insert(m));
    assert(s.insert(pos, m).to_multiset() =~= s.to_multiset().insert(m));
}

/// Inserting at the found position keeps a sequence sorted, given a
/// transitive order.
proof fn lemma_sorted_insert(
    s: Seq<MetaView>,
    pos: int,
    m: MetaView,
    leq: spec_fn(MetaView, MetaView) -> bool,
)
    requires
        sorted_by(s, leq),
        0 <= pos <= s.len(),
        forall|j: int| 0 <= j < pos ==> leq(#[trigger] s[j], m),
        pos < s.len() ==> leq(m, s[pos]),
        forall|x: MetaView, y: MetaView, z: MetaView|
            #[trigger] leq(x, y) && #[trigger] leq(y, z) ==> leq(x, z),
    ensures
        sorted_by(s.insert(pos, m), leq),
{
    let t = s.insert(pos, m);
    assert forall|i: int, j: int| 0 <= i < j < t.len() implies #[trigger] leq(t[i], t[j]) by {
        assert(t.len() == s.len() + 1);
        if i < pos {
            assert(t[i] == s[i]);
        } else if i == pos {
            assert(t[i] == m);
        } else {
            assert(t[i] == s[i - 1]);
        }
        if j < pos {
            assert(t[j] == s[j]);
        } else if j == pos {
            assert(t[j] == m);
        } else {
            assert(t[j] == s[j - 1]);
        }
        if j == pos {
            assert(leq(s[i], m));
        } else if i == pos {
            assert(leq(m, s[pos]));
            if j - 1 > pos {
                assert(leq(s[pos], s[j - 1]));
            }
        } else if i < pos && j > pos {
            assert(leq(s[i], s[j - 1]));
        }
    }
}

/// The first position of `r` whose summary need not come before `m` under
/// the date order.
fn date_insert_pos(r: &Vec<EntryMetadata>, m: &EntryMetadata) -> (pos: usize)
    ensures
        pos <= r@.len(),
        forall|j: int| 0 <= j < pos ==> date_before(#[trigger] metas_view(r@)[j], m@),
        pos < r@.len() ==> !date_before(metas_view(r@)[pos as int], m@),
{
    let mut pos: usize = 0;
    while pos < r.len()
        invariant
            pos <= r@.len(),
            forall|j: int| 0 <= j < pos ==> date_before(#[trigger] metas_view(r@)[j], m@),
        decreases r@.len() - pos,
    {
        proof {
            assert(metas_view(r@)[pos as int] == r@[pos as int]@);
        }
        if r[pos].created < m.created {
            return pos;
        }
        pos = pos + 1;
    }
    pos
}

/// The first position of `r` whose summary need not come before `m` under
/// the size order.
fn size_insert_pos(r: &Vec<EntryMetadata>, m: &EntryMetadata) -> (pos: usize)
    ensures
        pos <= r@.len(),
        forall|j: int| 0 <= j < pos ==> size_before(#[trigger] metas_view(r@)[j], m@),
        pos < r@.len() ==> !size_before(metas_view(r@)[pos as int], m@),
{
    let mut pos: usize = 0;
    while pos < r.len()
        invariant
            pos <= r@.len(),
            forall|j: int| 0 <= j < pos ==> size_before(#[trigger] metas_view(r@)[j], m@),
        decreases r@.len() - pos,
    {
        proof {
            assert(metas_view(r@)[pos as int] == r@[pos as int]@);
        }
        if r[pos].total_size_bytes < m.total_size_bytes {
            return pos;
        }
        pos = pos + 1;
    }
    pos
}

/// Whether `a` need come no later than `b` under the name order.
fn name_before_exec(a: &EntryMetadata, b: &EntryMetadata) -> (r: bool)
    ensures
        r == name_before(a@, b@),
{
    match (&a.name, &b.name) {
        (Some(x), Some(y)) => str_le(x.as_str(), y.as_str()),
        (Some(_), None) => true,
        (None, Some(_)) => false,
        (None, None) => true,
    }
}

/// The first position of `r` whose summary need not come before `m` under
/// the name order.
fn name_insert_pos(r: &Vec<EntryMetadata>, m: &EntryMetadata) -> (pos: usize)
    ensures
        pos <= r@.len(),
        forall|j: int| 0 <= j < pos ==> name_before(#[trigger] metas_view(r@)[j], m@),
        pos < r@.len() ==> !name_before(metas_view(r@)[pos as int], m@),
{
    let mut pos: usize = 0;
    while pos < r.len()
        invariant
            pos <= r@.len(),
            forall|j: int| 0 <= j < pos ==> name_before(#[trigger] metas_view(r@)[j], m@),
        decreases r@.len() - pos,
    {
        proof {
            assert(metas_view(r@)[pos as int] == r@[pos as int]@);
        }
        if !name_before_exec(&r[pos], m) {
            return pos;
        }
        pos = pos + 1;
    }
    pos
}

/// The name order is total and transitive.
proof fn lemma_name_order(a: MetaView, b: MetaView, c: MetaView)
    ensures
        name_before(a, b) || name_before(b, a),
        name_before(a, b) && name_before(b, c) ==> name_before(a, c),
{
    match (a.name, b.name) {
        (Some(x), Some(y)) => {
            lemma_lex_le_total(x, y);
        },
        _ => {},
    }
    if name_before(a, b) && name_before(b, c) {
        match (a.name, b.name, c.name) {
            (Some(x), Some(y), Some(z)) => {
                lemma_lex_le_trans(x, y, z);
            },
            _ => {},
        }
    }
}

} // verus!
