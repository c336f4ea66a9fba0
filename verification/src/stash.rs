//! The metadata index: lightweight summaries of every live entry, with the
//! registry invariants — unique identities and an aggregate size that always
//! equals the sum of the summaries' sizes.

use vstd::prelude::*;
use vstd::pervasive::VecAdditionalExecFns;
use crate::ids::{Identity, id_chars, lemma_id_chars_injective};
use crate::item::opt_view;
use crate::search::{lower_of, contains_seq, prefix_of, to_lowercase, prefix_chars, contains_chars};
use crate::text::{str_chars, str_eq};

verus! {

/// The summary of one entry, as held by the index.
#[derive(Debug)]
pub struct EntryMetadata {
    pub uuid: Identity,
    pub name: Option<String>,
    /// Creation time in seconds since the Unix epoch.
    pub created: i64,
    pub total_size_bytes: u64,
    pub item_count: usize,
}

/// The mathematical content of an [`EntryMetadata`].
pub ghost struct MetaView {
    pub uuid: Identity,
    pub name: Option<Seq<char>>,
    pub created: i64,
    pub total_size_bytes: u64,
    pub item_count: int,
}

impl View for EntryMetadata {
    type V = MetaView;

    open spec fn view(&self) -> MetaView {
        MetaView {
            uuid: self.uuid,
            name: opt_view(self.name),
            created: self.created,
            total_size_bytes: self.total_size_bytes,
            item_count: self.item_count as int,
        }
    }
}

impl Clone for EntryMetadata {
    fn clone(&self) -> (r: Self)
        ensures
            r@ == self@,
    {
        EntryMetadata {
            uuid: self.uuid,
            name: crate::item::clone_opt_string(&self.name),
            created: self.created,
            total_size_bytes: self.total_size_bytes,
            item_count: self.item_count,
        }
    }
}

/// The views of a vector of summaries.
pub open spec fn metas_view(s: Seq<EntryMetadata>) -> Seq<MetaView> {
    s.map_values(|m: EntryMetadata| m@)
}

/// The sum of the summaries' sizes.
pub open spec fn sum_meta_sizes(s: Seq<MetaView>) -> int
    decreases s.len(),
{
    if s.len() == 0 {
        0
    } else {
        sum_meta_sizes(s.drop_last()) + s.last().total_size_bytes
    }
}

/// No two summaries share an identity.
pub open spec fn unique_ids(s: Seq<MetaView>) -> bool {
    forall|i: int, j: int| 0 <= i < j < s.len() ==> s[i].uuid != s[j].uuid
}

/// Whether some summary carries the given identity.
pub open spec fn contains_id(s: Seq<MetaView>, id: Identity) -> bool {
    exists|i: int| 0 <= i < s.len() && s[i].uuid == id
}

/// Whether a summary's name is exactly the given text.
pub open spec fn name_matches(m: MetaView, n: Seq<char>) -> bool {
    m.name matches Some(name) && name == n
}

/// Whether some summary's name is exactly the given text.
pub open spec fn contains_name(s: Seq<MetaView>, n: Seq<char>) -> bool {
    exists|i: int| 0 <= i < s.len() && name_matches(s[i], n)
}

/// Whether a summary matches a search pattern already folded to lower
/// case: its name contains the pattern ignoring case, or its identity's
/// canonical rendering starts with it.
pub open spec fn search_matches(m: MetaView, pattern_lower: Seq<char>) -> bool {
    ||| (m.name matches Some(n) && contains_seq(lower_of(n), pattern_lower))
    ||| prefix_of(id_chars(m.uuid.hi, m.uuid.lo), pattern_lower)
}

/// Date order for listings: newer entries come first.
pub open spec fn date_before(a: MetaView, b: MetaView) -> bool {
    a.created >= b.created
}

/// Size order for listings: larger entries come first.
pub open spec fn size_before(a: MetaView, b: MetaView) -> bool {
    a.total_size_bytes >= b.total_size_bytes
}

/// Name order for listings: names lexicographically, unnamed entries after
/// named ones.
pub open spec fn name_before(a: MetaView, b: MetaView) -> bool {
    match (a.name, b.name) {
        (Some(x), Some(y)) => crate::text::lex_le(x, y),
        (Some(_), None) => true,
        (None, Some(_)) => false,
        (None, None) => true,
    }
}

/// Whether a summary was created strictly before the cutoff.
pub open spec fn older_than(m: MetaView, cutoff: int) -> bool {
    (m.created as int) < cutoff
}


/// The size a summary ends at after applying a delta, clamped so that the
/// aggregate keeps fitting a machine word and never goes negative.
pub open spec fn applied_size(entry_size: u64, total: u64, size_delta: i64) -> u64 {
    if size_delta >= 0 {
        if size_delta <= u64::MAX - total {
            (entry_size + size_delta) as u64
        } else {
            (entry_size + (u64::MAX - total)) as u64
        }
    } else {
        if -size_delta <= entry_size {
            (entry_size + size_delta) as u64
        } else {
            0
        }
    }
}

/// The item count a summary ends at after applying a delta, clamped to the
/// machine range.
pub open spec fn applied_count(count: int, delta: isize) -> int {
    if delta >= 0 {
        if count + delta <= usize::MAX {
            count + delta
        } else {
            usize::MAX as int
        }
    } else {
        if -delta <= count {
            count + delta
        } else {
            0
        }
    }
}

proof fn lemma_sum_meta_update(s: Seq<MetaView>, i: int, m: MetaView)
    requires
        0 <= i < s.len(),
    ensures
        sum_meta_sizes(s.update(i, m)) == sum_meta_sizes(s) - s[i].total_size_bytes
            + m.total_size_bytes,
    decreases s.len(),
{
    if i == s.len() - 1 {
        assert(s.update(i, m).drop_last() =~= s.drop_last());
        assert(s.update(i, m).last() == m);
    } else {
        assert(s.update(i, m).drop_last() =~= s.drop_last().update(i, m));
        assert(s.update(i, m).last() == s.last());
        lemma_sum_meta_update(s.drop_last(), i, m);
    }
}

proof fn lemma_sum_meta_take(s: Seq<MetaView>, i: int)
    requires
        0 <= i < s.len(),
    ensures
        sum_meta_sizes(s.take(i + 1)) == sum_meta_sizes(s.take(i)) + s[i].total_size_bytes,
{
    assert(s.take(i + 1).drop_last() =~= s.take(i));
    assert(s.take(i + 1).last() == s[i]);
}

proof fn lemma_sum_meta_nonneg(s: Seq<MetaView>)
    ensures
        0 <= sum_meta_sizes(s),
    decreases s.len(),
{
    if s.len() > 0 {
        lemma_sum_meta_nonneg(s.drop_last());
    }
}

proof fn lemma_sum_meta_remove(s: Seq<MetaView>, i: int)
    requires
        0 <= i < s.len(),
    ensures
        sum_meta_sizes(s.remove(i)) == sum_meta_sizes(s) - s[i].total_size_bytes,
    decreases s.len(),
{
    if i == s.len() - 1 {
        assert(s.remove(i) =~= s.drop_last());
    } else {
        assert(s.remove(i).drop_last() =~= s.drop_last().remove(i));
        assert(s.remove(i).last() == s.last());
        lemma_sum_meta_remove(s.drop_last(), i);
    }
}

/// The registry: an ordered list of summaries plus the aggregate facts the
/// index maintains.
#[derive(Debug)]
pub struct Stash {
    pub name: Option<String>,
    /// Creation time in seconds since the Unix epoch.
    pub created: i64,
    /// Last mutation time in seconds since the Unix epoch.
    pub updated: i64,
    pub entries: Vec<EntryMetadata>,
    pub total_size_bytes: u64,
}

/// The mathematical content of a [`Stash`].
pub ghost struct StashView {
    pub name: Option<Seq<char>>,
    pub created: i64,
    pub updated: i64,
    pub entries: Seq<MetaView>,
    pub total_size_bytes: u64,
}

impl View for Stash {
    type V = StashView;

    open spec fn view(&self) -> StashView {
        StashView {
            name: opt_view(self.name),
            created: self.created,
            updated: self.updated,
            entries: metas_view(self.entries@),
            total_size_bytes: self.total_size_bytes,
        }
    }
}

impl Stash {
    /// The registry invariants: the aggregate size is the sum of the
    /// summaries' sizes, and identities are unique.
    pub open spec fn wf(&self) -> bool {
        &&& self.total_size_bytes == sum_meta_sizes(self@.entries)
        &&& unique_ids(self@.entries)
    }

    /// An empty registry stamped with the given time.
    pub fn new(name: Option<String>, now: i64) -> (r: Stash)
        ensures
            r@ == (StashView {
                name: opt_view(name),
                created: now,
                updated: now,
                entries: Seq::empty(),
                total_size_bytes: 0,
            }),
            r.wf(),
    {
        let r = Stash { name, created: now, updated: now, entries: Vec::new(), total_size_bytes: 0 };
        proof {
            assert(metas_view(r.entries@) =~= Seq::<MetaView>::empty());
        }
        r
    }

    /// Registers a new summary at the end of the list.
    pub fn add_entry(&mut self, uuid: Identity, name: Option<String>, size: u64, item_count: usize, now: i64)
        requires
            old(self).wf(),
            !contains_id(old(self)@.entries, uuid),
            old(self).total_size_bytes + size <= u64::MAX,
        ensures
            final(self).wf(),
            final(self)@.entries == old(self)@.entries.push(MetaView {
                uuid,
                name: opt_view(name),
                created: now,
                total_size_bytes: size,
                item_count: item_count as int,
            }),
            final(self).total_size_bytes == old(self).total_size_bytes + size,
            final(self).updated == now,
            final(self)@.name == old(self)@.name,
            final(self).created == old(self).created,
    {
        let metadata = EntryMetadata { uuid, name, created: now, total_size_bytes: size, item_count };
        self.total_size_bytes = self.total_size_bytes + size;
        self.entries.push(metadata);
        self.updated = now;
        proof {
            let new_entries = self@.entries;
            let old_entries = old(self)@.entries;
            assert(new_entries =~= old_entries.push(MetaView {
                uuid,
                name: opt_view(name),
                created: now,
                total_size_bytes: size,
                item_count: item_count as int,
            }));
            assert(new_entries.drop_last() =~= old_entries);
            assert(forall|i: int| 0 <= i < old_entries.len() ==> new_entries[i] == old_entries[i]);
        }
    }

    /// Removes the summary with the given identity, if present, keeping
    /// every other summary in order and shrinking the aggregate size by
    /// exactly the removed summary's size.
    pub fn remove_entry(&mut self, uuid: &Identity, now: i64) -> (r: Option<EntryMetadata>)
        requires
            old(self).wf(),
        ensures
            final(self).wf(),
            final(self)@.name == old(self)@.name,
            final(self).created == old(self).created,
            !contains_id(old(self)@.entries, *uuid) ==> {
                &&& r is None
                &&& final(self)@ == old(self)@
            },
            contains_id(old(self)@.entries, *uuid) ==> {
                &&& r matches Some(m)
                &&& exists|i: int|
                    {
                        &&& 0 <= i < old(self)@.entries.len()
                        &&& old(self)@.entries[i].uuid == *uuid
                        &&& m@ == old(self)@.entries[i]
                        &&& final(self)@.entries == old(self)@.entries.remove(i)
                    }
                &&& !contains_id(final(self)@.entries, *uuid)
                &&& final(self).total_size_bytes == old(self).total_size_bytes
                    - m.total_size_bytes
                &&& final(self).updated == now
            },
    {
        let ghost old_entries = self@.entries;
        let mut pos: usize = 0;
        while pos < self.entries.len()
            invariant
                self@ == old(self)@,
                self.total_size_bytes == old(self).total_size_bytes,
                old(self).wf(),
                old_entries == self@.entries,
                pos <= self.entries@.len(),
                forall|j: int| 0 <= j < pos ==> old_entries[j].uuid != *uuid,
            decreases self.entries@.len() - pos,
        {
            proof {
                assert(old_entries[pos as int] == self.entries@[pos as int]@);
            }
            if self.entries[pos].uuid == *uuid {
                proof {
                    assert(contains_id(old_entries, *uuid));
                    lemma_sum_meta_remove(old_entries, pos as int);
                    lemma_sum_meta_nonneg(old_entries.remove(pos as int));
                }
                let ghost pre = self.entries@;
                let m = self.entries.remove(pos);
                proof {
                    assert(m@ == old_entries[pos as int]);
                }
                self.total_size_bytes = self.total_size_bytes - m.total_size_bytes;
                self.updated = now;
                proof {
                    let new_entries = self@.entries;
                    assert(self.entries@ == pre.remove(pos as int));
                    assert forall|k: int|
                        0 <= k < new_entries.len() implies new_entries[k] == old_entries.remove(
                        pos as int,
                    )[k] by {
                        assert(new_entries[k] == self.entries@[k]@);
                        if k < pos {
                            assert(self.entries@[k] == pre[k]);
                            assert(old_entries.remove(pos as int)[k] == old_entries[k]);
                        } else {
                            assert(self.entries@[k] == pre[k + 1]);
                            assert(old_entries.remove(pos as int)[k] == old_entries[k + 1]);
                        }
                    }
                    assert(new_entries =~= old_entries.remove(pos as int));
                    assert forall|a: int, b: int|
                        0 <= a < b < new_entries.len() implies new_entries[a].uuid
                        != new_entries[b].uuid by {
                        let a0: int = if a < pos { a } else { a + 1 };
                        let b0: int = if b < pos { b } else { b + 1 };
                        assert(new_entries[a] == old_entries[a0]);
                        assert(new_entries[b] == old_entries[b0]);
                    }
                    assert forall|j: int|
                        0 <= j < new_entries.len() implies new_entries[j].uuid != *uuid by {
                        let j0: int = if j < pos { j } else { j + 1 };
                        assert(new_entries[j] == old_entries[j0]);
                        if j0 != pos {
                            assert(old_entries[j0].uuid != old_entries[pos as int].uuid);
                        }
                    }
                }
                return Some(m);
            }
            pos = pos + 1;
        }
        proof {
            assert(!contains_id(old_entries, *uuid));
        }
        None
    }

    /// The summary with the given identity, if present.
    pub fn get_metadata(&self, uuid: &Identity) -> (r: Option<&EntryMetadata>)
        ensures
            r matches Some(m) ==> exists|i: int|
                0 <= i < self@.entries.len() && self@.entries[i] == m@ && m.uuid == *uuid,
            r is None ==> !contains_id(self@.entries, *uuid),
    {
        let mut i: usize = 0;
        while i < self.entries.len()
            invariant
                i <= self.entries@.len(),
                forall|j: int| 0 <= j < i ==> self@.entries[j].uuid != *uuid,
            decreases self.entries@.len() - i,
        {
            proof {
                assert(self@.entries[i as int] == self.entries@[i as int]@);
            }
            if self.entries[i].uuid == *uuid {
                return Some(&self.entries[i]);
            }
            i = i + 1;
        }
        None
    }

    /// The first summary whose name is exactly the given text, if any.
    pub fn find_by_name(&self, name: &str) -> (r: Option<&EntryMetadata>)
        ensures
            r matches Some(m) ==> exists|i: int|
                {
                    &&& 0 <= i < self@.entries.len()
                    &&& self@.entries[i] == m@
                    &&& name_matches(m@, name@)
                    &&& forall|j: int| 0 <= j < i ==> !name_matches(self@.entries[j], name@)
                },
            r is None ==> !contains_name(self@.entries, name@),
    {
        let mut i: usize = 0;
        while i < self.entries.len()
            invariant
                i <= self.entries@.len(),
                forall|j: int| 0 <= j < i ==> !name_matches(self@.entries[j], name@),
            decreases self.entries@.len() - i,
        {
            proof {
                assert(self@.entries[i as int] == self.entries@[i as int]@);
            }
            let hit = match &self.entries[i].name {
                Some(n) => str_eq(n.as_str(), name),
                None => false,
            };
            if hit {
                return Some(&self.entries[i]);
            }
            i = i + 1;
        }
        None
    }

    /// How many summaries carry exactly the given name.
    pub fn count_name_matches(&self, name: &str) -> (r: usize)
        ensures
            r as int == self@.entries.filter(|m: MetaView| name_matches(m, name@)).len(),
    {
        let mut count: usize = 0;
        let mut i: usize = 0;
        while i < self.entries.len()
            invariant
                i <= self.entries@.len(),
                count as int == self@.entries.take(i as int).filter(
                    |m: MetaView| name_matches(m, name@),
                ).len(),
                count <= i,
            decreases self.entries@.len() - i,
        {
            proof {
                reveal(Seq::filter);
                assert(self@.entries[i as int] == self.entries@[i as int]@);
                let prefix = self@.entries.take(i + 1);
                assert(prefix.drop_last() =~= self@.entries.take(i as int));
                assert(prefix.last() == self@.entries[i as int]);
            }
            let hit = match &self.entries[i].name {
                Some(n) => str_eq(n.as_str(), name),
                None => false,
            };
            if hit {
                count = count + 1;
            }
            i = i + 1;
        }
        proof {
            assert(self@.entries.take(self@.entries.len() as int) =~= self@.entries);
        }
        count
    }

    /// The summary found for a human-supplied identifier: by identity when
    /// the text is a canonical identity rendering known to the index, by
    /// exact name otherwise.
    pub fn find_by_identifier(&self, identifier: &str) -> (r: Option<&EntryMetadata>)
        ensures
            r matches Some(m) ==> exists|i: int|
                0 <= i < self@.entries.len() && self@.entries[i] == m@ && (identifier@
                    == id_chars(m.uuid.hi, m.uuid.lo) || name_matches(m@, identifier@)),
            r is None ==> forall|i: int|
                0 <= i < self@.entries.len() ==> identifier@ != id_chars(
                    #[trigger] self@.entries[i].uuid.hi,
                    self@.entries[i].uuid.lo,
                ) && !name_matches(self@.entries[i], identifier@),
    {
        let parsed = Identity::parse(identifier);
        if let Some(id) = parsed {
            if let Some(m) = self.get_metadata(&id) {
                return Some(m);
            }
        }
        let r = self.find_by_name(identifier);
        proof {
            if r is None {
                assert forall|i: int|
                    0 <= i < self@.entries.len() implies identifier@ != id_chars(
                    #[trigger] self@.entries[i].uuid.hi,
                    self@.entries[i].uuid.lo,
                ) && !name_matches(self@.entries[i], identifier@) by {
                    let m = self@.entries[i];
                    if identifier@ == id_chars(m.uuid.hi, m.uuid.lo) {
                        match parsed {
                            Some(id) => {
                                lemma_id_chars_injective(id.hi, id.lo, m.uuid.hi, m.uuid.lo);
                                assert(m.uuid == id);
                                assert(contains_id(self@.entries, id));
                            },
                            None => {},
                        }
                    }
                }
            }
        }
        r
    }

    /// Every summary matching the pattern, ignoring case, in index order.
    pub fn search(&self, pattern: &str) -> (r: Vec<EntryMetadata>)
        ensures
            metas_view(r@) == self@.entries.filter(
                |m: MetaView| search_matches(m, lower_of(pattern@)),
            ),
    {
        let pattern_lower = to_lowercase(pattern);
        let pattern_chars = str_chars(pattern_lower.as_str());
        let mut r: Vec<EntryMetadata> = Vec::new();
        let mut i: usize = 0;
        while i < self.entries.len()
            invariant
                i <= self.entries@.len(),
                pattern_lower@ == lower_of(pattern@),
                pattern_chars@ == lower_of(pattern@),
                metas_view(r@) == self@.entries.take(i as int).filter(
                    |m: MetaView| search_matches(m, lower_of(pattern@)),
                ),
            decreases self.entries@.len() - i,
        {
            proof {
                reveal(Seq::filter);
                assert(self@.entries[i as int] == self.entries@[i as int]@);
                let prefix = self@.entries.take(i + 1);
                assert(prefix.drop_last() =~= self@.entries.take(i as int));
                assert(prefix.last() == self@.entries[i as int]);
            }
            let m = &self.entries[i];
            let name_hit = match &m.name {
                Some(n) => {
                    let n_lower = to_lowercase(n.as_str());
                    let n_vec = str_chars(n_lower.as_str());
                    contains_chars(&n_vec, &pattern_chars)
                },
                None => false,
            };
            let hit = if name_hit {
                true
            } else {
                let id_string = m.uuid.to_hyphenated();
                let id_vec = str_chars(id_string.as_str());
                prefix_chars(&id_vec, &pattern_chars)
            };
            if hit {
                r.push(self.entries[i].clone());
                proof {
                    reveal(Seq::filter);
                    assert(metas_view(r@) =~= self@.entries.take(i + 1).filter(
                        |mv: MetaView| search_matches(mv, lower_of(pattern@)),
                    ));
                }
            } else {
                proof {
                    reveal(Seq::filter);
                }
            }
            i = i + 1;
        }
        proof {
            assert(self@.entries.take(self@.entries.len() as int) =~= self@.entries);
        }
        r
    }

    /// Drops every summary created strictly before `now` minus the given
    /// number of days, returning the dropped identities in index order.
    pub fn remove_older_than_days(&mut self, days: i64, now: i64) -> (r: Vec<Identity>)
        requires
            old(self).wf(),
        ensures
            final(self).wf(),
            final(self)@.entries == old(self)@.entries.filter(
                |m: MetaView| !older_than(m, now - days * 86400),
            ),
            r@ == old(self)@.entries.filter(|m: MetaView| older_than(m, now - days * 86400))
                .map_values(|m: MetaView| m.uuid),
            final(self)@.name == old(self)@.name,
            final(self).created == old(self).created,
            r@.len() == 0 ==> final(self).updated == old(self).updated,
            r@.len() > 0 ==> final(self).updated == now,
    {
        let ghost old_entries = self@.entries;
        let mut kept: Vec<EntryMetadata> = Vec::new();
        let mut kept_size: u64 = 0;
        let mut removed: Vec<Identity> = Vec::new();
        let mut i: usize = 0;
        while i < self.entries.len()
            invariant
                old_entries == self@.entries,
                old(self).wf(),
                i <= self.entries@.len(),
                metas_view(kept@) == old_entries.take(i as int).filter(
                    |m: MetaView| !older_than(m, now - days * 86400),
                ),
                removed@ == old_entries.take(i as int).filter(
                    |m: MetaView| older_than(m, now - days * 86400),
                ).map_values(|m: MetaView| m.uuid),
                kept_size == sum_meta_sizes(metas_view(kept@)),
            decreases self.entries@.len() - i,
        {
            let ghost keep_pred = |m: MetaView| !older_than(m, now - days * 86400);
            let ghost drop_pred = |m: MetaView| older_than(m, now - days * 86400);
            proof {
                reveal(Seq::filter);
                assert(old_entries[i as int] == self.entries@[i as int]@);
                let prefix = old_entries.take(i + 1);
                assert(prefix.drop_last() =~= old_entries.take(i as int));
                assert(prefix.last() == old_entries[i as int]);
                lemma_sum_meta_nonneg(metas_view(kept@));
            }
            let m = &self.entries[i];
            let created_wide: i128 = m.created as i128;
            let cutoff_wide: i128 = (now as i128) - (days as i128) * 86400;
            let is_old = created_wide < cutoff_wide;
            proof {
                assert(is_old == older_than(old_entries[i as int], now - days * 86400));
            }
            if is_old {
                removed.push(m.uuid);
                proof {
                    reveal(Seq::filter);
                    let f = old_entries.take(i + 1).filter(drop_pred);
                    assert(f.drop_last() =~= old_entries.take(i as int).filter(drop_pred));
                    assert(removed@ =~= f.map_values(|mv: MetaView| mv.uuid));
                }
            } else {
                proof {
                    reveal(Seq::filter);
                    let f = old_entries.take(i + 1).filter(keep_pred);
                    assert(f.drop_last() =~= old_entries.take(i as int).filter(keep_pred));
                    assert(f.last() == old_entries[i as int]);
                    lemma_kept_size_bound(old_entries, i as int, keep_pred);
                }
                kept.push(self.entries[i].clone());
                kept_size = kept_size + self.entries[i].total_size_bytes;
                proof {
                    reveal(Seq::filter);
                    assert(metas_view(kept@) =~= old_entries.take(i + 1).filter(keep_pred));
                    assert(metas_view(kept@).drop_last() =~= old_entries.take(i as int).filter(
                        keep_pred,
                    ));
                }
            }
            i = i + 1;
        }
        proof {
            assert(old_entries.take(old_entries.len() as int) =~= old_entries);
            lemma_unique_filter(old_entries, |m: MetaView| !older_than(m, now - days * 86400));
        }
        self.entries = kept;
        self.total_size_bytes = kept_size;
        if removed.len() > 0 {
            self.updated = now;
        }
        removed
    }

    /// The most recently registered summary, if any.
    pub fn most_recent(&self) -> (r: Option<&EntryMetadata>)
        ensures
            self@.entries.len() == 0 ==> r is None,
            self@.entries.len() > 0 ==> (r matches Some(m) && m@ == self@.entries.last()),
    {
        if self.entries.len() == 0 {
            None
        } else {
            Some(&self.entries[self.entries.len() - 1])
        }
    }

    /// How many summaries the registry holds.
    pub fn len(&self) -> (r: usize)
        ensures
            r == self@.entries.len(),
    {
        self.entries.len()
    }

    /// Whether the registry holds no summary.
    pub fn is_empty(&self) -> (r: bool)
        ensures
            r == (self@.entries.len() == 0),
    {
        self.entries.len() == 0
    }

    /// Decides whether the registry invariants hold of this value, for
    /// example after reading it back from an untrusted document.
    pub fn check_wf(&self) -> (r: bool)
        ensures
            r == self.wf(),
    {
        let mut total: u64 = 0;
        let mut i: usize = 0;
        while i < self.entries.len()
            invariant
                i <= self.entries@.len(),
                total == sum_meta_sizes(self@.entries.take(i as int)),
                sum_meta_sizes(self@.entries.take(i as int)) <= u64::MAX,
            decreases self.entries@.len() - i,
        {
            proof {
                assert(self@.entries[i as int] == self.entries@[i as int]@);
                lemma_sum_meta_take(self@.entries, i as int);
            }
            let size = self.entries[i].total_size_bytes;
            if total > u64::MAX - size {
                proof {
                    lemma_sum_meta_take_le(self@.entries, i + 1);
                }
                proof {
                    assert(sum_meta_sizes(self@.entries) > u64::MAX);
                }
                return false;
            }
            total = total + size;
            i = i + 1;
        }
        proof {
            assert(self@.entries.take(self@.entries.len() as int) =~= self@.entries);
        }
        if total != self.total_size_bytes {
            return false;
        }
        let mut a: usize = 0;
        while a < self.entries.len()
            invariant
                a <= self.entries@.len(),
                forall|i: int, j: int| 0 <= i < j < self.entries@.len() && i < a
                    ==> self@.entries[i].uuid != self@.entries[j].uuid,
                self.total_size_bytes == sum_meta_sizes(self@.entries),
            decreases self.entries@.len() - a,
        {
            let mut b: usize = a + 1;
            while b < self.entries.len()
                invariant
                    a < b <= self.entries@.len() || (a + 1 == b && b > self.entries@.len()),
                    a < self.entries@.len() || b > self.entries@.len(),
                    forall|j: int| a < j < b ==> self@.entries[a as int].uuid
                        != self@.entries[j].uuid,
                    self.total_size_bytes == sum_meta_sizes(self@.entries),
                decreases self.entries@.len() - b,
            {
                proof {
                    assert(self@.entries[a as int] == self.entries@[a as int]@);
                    assert(self@.entries[b as int] == self.entries@[b as int]@);
                }
                if self.entries[a].uuid == self.entries[b].uuid {
                    return false;
                }
                b = b + 1;
            }
            a = a + 1;
        }
        true
    }

    /// Rewrites the summary with the given identity: the name is replaced,
    /// and the size and item count are shifted by the given deltas, clamped
    /// so that the registry invariants survive.
    pub fn update_entry_metadata(
        &mut self,
        uuid: &Identity,
        name: Option<String>,
        size_delta: i64,
        item_count_delta: isize,
        now: i64,
    ) -> (r: bool)
        requires
            old(self).wf(),
        ensures
            final(self).wf(),
            r == contains_id(old(self)@.entries, *uuid),
            !r ==> final(self)@ == old(self)@ && final(self).total_size_bytes == old(
                self,
            ).total_size_bytes,
            r ==> exists|i: int|
                {
                    &&& 0 <= i < old(self)@.entries.len()
                    &&& old(self)@.entries[i].uuid == *uuid
                    &&& final(self)@.entries == old(self)@.entries.update(
                        i,
                        MetaView {
                            uuid: *uuid,
                            name: opt_view(name),
                            created: old(self)@.entries[i].created,
                            total_size_bytes: applied_size(
                                old(self)@.entries[i].total_size_bytes,
                                old(self).total_size_bytes,
                                size_delta,
                            ),
                            item_count: applied_count(
                                old(self)@.entries[i].item_count,
                                item_count_delta,
                            ),
                        },
                    )
                    &&& final(self).total_size_bytes == old(self).total_size_bytes - old(
                        self,
                    )@.entries[i].total_size_bytes + applied_size(
                        old(self)@.entries[i].total_size_bytes,
                        old(self).total_size_bytes,
                        size_delta,
                    )
                    &&& final(self).updated == now
                },
    {
        let ghost old_entries = self@.entries;
        let mut pos: usize = 0;
        while pos < self.entries.len()
            invariant
                self@ == old(self)@,
                self.total_size_bytes == old(self).total_size_bytes,
                old(self).wf(),
                old_entries == self@.entries,
                pos <= self.entries@.len(),
                forall|j: int| 0 <= j < pos ==> old_entries[j].uuid != *uuid,
            decreases self.entries@.len() - pos,
        {
            proof {
                assert(old_entries[pos as int] == self.entries@[pos as int]@);
            }
            if self.entries[pos].uuid == *uuid {
                let ghost old_meta = old_entries[pos as int];
                let entry_size = self.entries[pos].total_size_bytes;
                let total = self.total_size_bytes;
                proof {
                    lemma_sum_meta_remove(old_entries, pos as int);
                    lemma_sum_meta_nonneg(old_entries.remove(pos as int));
                }
                let new_size: u64 = if size_delta >= 0 {
                    let room: u64 = u64::MAX - total;
                    let d: u64 = size_delta as u64;
                    if d <= room {
                        entry_size + d
                    } else {
                        entry_size + room
                    }
                } else {
                    let d: u64 = ((-(size_delta + 1)) as u64) + 1;
                    if d <= entry_size {
                        entry_size - d
                    } else {
                        0
                    }
                };
                let old_count = self.entries[pos].item_count;
                let new_count: usize = if item_count_delta >= 0 {
                    let d: usize = item_count_delta as usize;
                    if old_count <= usize::MAX - d {
                        old_count + d
                    } else {
                        usize::MAX
                    }
                } else {
                    let d: usize = ((-(item_count_delta + 1)) as usize) + 1;
                    if d <= old_count {
                        old_count - d
                    } else {
                        0
                    }
                };
                proof {
                    assert(new_size == applied_size(
                        old_meta.total_size_bytes,
                        old(self).total_size_bytes,
                        size_delta,
                    ));
                    assert(new_count as int == applied_count(
                        old_meta.item_count,
                        item_count_delta,
                    ));
                }
                let new_meta = EntryMetadata {
                    uuid: *uuid,
                    name,
                    created: self.entries[pos].created,
                    total_size_bytes: new_size,
                    item_count: new_count,
                };
                let ghost new_meta_view = new_meta@;
                let ghost pre = self.entries@;
                self.entries.set(pos, new_meta);
                self.total_size_bytes = total - entry_size + new_size;
                self.updated = now;
                proof {
                    let new_entries = self@.entries;
                    assert forall|k: int|
                        0 <= k < new_entries.len() implies new_entries[k] == old_entries.update(
                        pos as int,
                        new_meta_view,
                    )[k] by {
                        assert(new_entries[k] == self.entries@[k]@);
                        if k != pos {
                            assert(self.entries@[k] == pre[k]);
                        }
                    }
                    assert(new_entries =~= old_entries.update(pos as int, new_meta_view));
                    lemma_sum_meta_update(old_entries, pos as int, new_meta_view);
                    assert forall|a: int, b: int|
                        0 <= a < b < new_entries.len() implies new_entries[a].uuid
                        != new_entries[b].uuid by {
                        assert(old_entries[a].uuid != old_entries[b].uuid);
                        if a != pos && b != pos {
                            assert(new_entries[a] == old_entries[a]);
                            assert(new_entries[b] == old_entries[b]);
                        }
                    }
                    assert(contains_id(old_entries, *uuid));
                }
                return true;
            }
            pos = pos + 1;
        }
        proof {
            assert(!contains_id(old_entries, *uuid));
        }
        false
    }

    /// Stamps the registry as updated at the given time.
    pub fn touch(&mut self, now: i64)
        ensures
            final(self)@ == (StashView { updated: now, ..old(self)@ }),
            old(self).wf() ==> final(self).wf(),
    {
        self.updated = now;
    }
}


/// The sizes kept by a filter never exceed the sum over the whole prefix,
/// which itself fits the registry's aggregate.
proof fn lemma_kept_size_bound(s: Seq<MetaView>, i: int, pred: spec_fn(MetaView) -> bool)
    requires
        0 <= i < s.len(),
    ensures
        sum_meta_sizes(s.take(i).filter(pred)) + s[i].total_size_bytes <= sum_meta_sizes(
            s.take(i + 1),
        ) + sum_meta_sizes(s.take(i)),
        sum_meta_sizes(s.take(i).filter(pred)) <= sum_meta_sizes(s.take(i)),
        sum_meta_sizes(s.take(i)) + s[i].total_size_bytes == sum_meta_sizes(s.take(i + 1)),
        sum_meta_sizes(s.take(i + 1)) <= sum_meta_sizes(s),
{
    lemma_sum_meta_take(s, i);
    lemma_sum_filter_le(s.take(i), pred);
    lemma_sum_meta_take_le(s, i + 1);
}

/// Filtering can only shrink the summed sizes.
proof fn lemma_sum_filter_le(s: Seq<MetaView>, pred: spec_fn(MetaView) -> bool)
    ensures
        0 <= sum_meta_sizes(s.filter(pred)) <= sum_meta_sizes(s),
    decreases s.len(),
{
    reveal(Seq::filter);
    if s.len() == 0 {
        assert(s.filter(pred) =~= s);
    } else {
        lemma_sum_filter_le(s.drop_last(), pred);
        let f = s.filter(pred);
        let df = s.drop_last().filter(pred);
        if pred(s.last()) {
            assert(f == df.push(s.last()));
            assert(f.drop_last() =~= df);
            assert(f.last() == s.last());
        } else {
            assert(f == df);
        }
    }
}

proof fn lemma_sum_meta_take_le(s: Seq<MetaView>, i: int)
    requires
        0 <= i <= s.len(),
    ensures
        0 <= sum_meta_sizes(s.take(i)) <= sum_meta_sizes(s),
    decreases s.len() - i,
{
    if i == s.len() {
        assert(s.take(i) =~= s);
        lemma_sum_meta_nonneg(s);
    } else {
        lemma_sum_meta_take(s, i);
        lemma_sum_meta_take_le(s, i + 1);
        lemma_sum_meta_nonneg(s.take(i));
    }
}

proof fn lemma_unique_filter(s: Seq<MetaView>, pred: spec_fn(MetaView) -> bool)
    requires
        unique_ids(s),
    ensures
        unique_ids(s.filter(pred)),
    decreases s.len(),
{
    reveal(Seq::filter);
    if s.len() > 0 {
        assert(forall|i: int, j: int|
            0 <= i < j < s.drop_last().len() ==> s.drop_last()[i].uuid != s.drop_last()[j].uuid);
        lemma_unique_filter(s.drop_last(), pred);
        let f = s.filter(pred);
        let df = s.drop_last().filter(pred);
        if pred(s.last()) {
            assert(f == df.push(s.last()));
            assert forall|i: int, j: int| 0 <= i < j < f.len() implies f[i].uuid != f[j].uuid by {
                if j < f.len() - 1 {
                    assert(f[i] == df[i] && f[j] == df[j]);
                } else {
                    assert(f[j] == s.last());
                    assert(f[i] == df[i]);
                    lemma_filter_member_src(s.drop_last(), pred, i);
                }
            }
        } else {
            assert(f == df);
        }
    }
}

proof fn lemma_filter_member_src(s: Seq<MetaView>, pred: spec_fn(MetaView) -> bool, i: int)
    requires
        0 <= i < s.filter(pred).len(),
    ensures
        exists|k: int| 0 <= k < s.len() && s[k] == s.filter(pred)[i],
    decreases s.len(),
{
    reveal(Seq::filter);
    if s.len() > 0 {
        let f = s.filter(pred);
        let df = s.drop_last().filter(pred);
        if pred(s.last()) && i == f.len() - 1 {
            assert(f[i] == s.last());
            assert(s[s.len() - 1] == s.last());
        } else {
            lemma_filter_member_src(s.drop_last(), pred, i);
            let k = choose|k: int| 0 <= k < s.drop_last().len() && s.drop_last()[k] == df[i];
            assert(s[k] == df[i]);
            assert(f[i] == df[i]);
        }
    }
}

} // verus!
