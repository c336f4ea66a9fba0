//! One stash transaction's full record: its identity, captured items and
//! snapshot metadata.

use vstd::prelude::*;
use crate::ids::{Identity, id_chars, fresh_identity};
use crate::item::{Item, ItemView, opt_view, clone_opt_string};
use crate::clock::now_timestamp;
use crate::text::str_eq;

verus! {

/// The full persisted record of one stash transaction.
#[derive(Debug)]
pub struct Entry {
    pub uuid: Identity,
    pub name: Option<String>,
    /// Creation time in seconds since the Unix epoch.
    pub created: i64,
    /// Last metadata update in seconds since the Unix epoch.
    pub updated: i64,
    /// The directory the items were taken from.
    pub working_directory: String,
    pub items: Vec<Item>,
    pub total_size_bytes: u64,
    /// True when the entry was created by moving the originals away.
    pub was_destructive: bool,
}

/// The mathematical content of an [`Entry`].
pub ghost struct EntryView {
    pub uuid: Identity,
    pub name: Option<Seq<char>>,
    pub created: i64,
    pub updated: i64,
    pub working_directory: Seq<char>,
    pub items: Seq<ItemView>,
    pub total_size_bytes: u64,
    pub was_destructive: bool,
}

impl View for Entry {
    type V = EntryView;

    open spec fn view(&self) -> EntryView {
        EntryView {
            uuid: self.uuid,
            name: opt_view(self.name),
            created: self.created,
            updated: self.updated,
            working_directory: self.working_directory@,
            items: self.items@.map_values(|it: Item| it@),
            total_size_bytes: self.total_size_bytes,
            was_destructive: self.was_destructive,
        }
    }
}

/// The sum of the sizes of a sequence of items.
pub open spec fn sum_item_sizes(s: Seq<ItemView>) -> int
    decreases s.len(),
{
    if s.len() == 0 {
        0
    } else {
        sum_item_sizes(s.drop_last()) + s.last().size_bytes
    }
}

pub proof fn lemma_sum_item_sizes_take(s: Seq<ItemView>, i: int)
    requires
        0 <= i < s.len(),
    ensures
        sum_item_sizes(s.take(i + 1)) == sum_item_sizes(s.take(i)) + s[i].size_bytes,
{
    assert(s.take(i + 1).drop_last() =~= s.take(i));
    assert(s.take(i + 1).last() == s[i]);
}

pub proof fn lemma_sum_item_sizes_le(s: Seq<ItemView>, i: int)
    requires
        0 <= i <= s.len(),
    ensures
        0 <= sum_item_sizes(s.take(i)) <= sum_item_sizes(s),
    decreases s.len() - i,
{
    if i == s.len() {
        assert(s.take(i) =~= s);
        lemma_sum_item_sizes_nonneg(s);
    } else {
        lemma_sum_item_sizes_take(s, i);
        lemma_sum_item_sizes_le(s, i + 1);
        lemma_sum_item_sizes_nonneg(s.take(i));
    }
}

pub proof fn lemma_sum_item_sizes_nonneg(s: Seq<ItemView>)
    ensures
        0 <= sum_item_sizes(s),
    decreases s.len(),
{
    if s.len() > 0 {
        lemma_sum_item_sizes_nonneg(s.drop_last());
    }
}

/// An entry is well formed when its recorded total size is the sum of its
/// items' sizes.
pub open spec fn entry_wf(e: EntryView) -> bool {
    e.total_size_bytes == sum_item_sizes(e.items)
}

/// Clones a vector of items, keeping their content.
pub fn clone_items(items: &Vec<Item>) -> (r: Vec<Item>)
    ensures
        r@.map_values(|it: Item| it@) == items@.map_values(|it: Item| it@),
{
    let mut r: Vec<Item> = Vec::new();
    let mut i: usize = 0;
    while i < items.len()
        invariant
            i <= items@.len(),
            r@.len() == i,
            forall|j: int| 0 <= j < i ==> #[trigger] r@[j]@ == items@[j]@,
        decreases items@.len() - i,
    {
        r.push(items[i].clone());
        i = i + 1;
    }
    proof {
        assert(r@.map_values(|it: Item| it@) =~= items@.map_values(|it: Item| it@));
    }
    r
}

impl Clone for Entry {
    fn clone(&self) -> (r: Self)
        ensures
            r@ == self@,
    {
        Entry {
            uuid: self.uuid,
            name: clone_opt_string(&self.name),
            created: self.created,
            updated: self.updated,
            working_directory: self.working_directory.clone(),
            items: clone_items(&self.items),
            total_size_bytes: self.total_size_bytes,
            was_destructive: self.was_destructive,
        }
    }
}

/// Sums the sizes of the given items, or reports that the sum does not fit
/// in a machine word.
pub fn total_of_items(items: &Vec<Item>) -> (r: Option<u64>)
    ensures
        r matches Some(t) ==> t == sum_item_sizes(items@.map_values(|it: Item| it@)),
        r is None ==> sum_item_sizes(items@.map_values(|it: Item| it@)) > u64::MAX,
{
    let ghost views = items@.map_values(|it: Item| it@);
    let mut acc: u64 = 0;
    let mut i: usize = 0;
    while i < items.len()
        invariant
            i <= items@.len(),
            views == items@.map_values(|it: Item| it@),
            acc == sum_item_sizes(views.take(i as int)),
        decreases items@.len() - i,
    {
        proof {
            lemma_sum_item_sizes_take(views, i as int);
        }
        let size = items[i].size_bytes;
        if acc > u64::MAX - size {
            proof {
                lemma_sum_item_sizes_le(views, i + 1);
            }
            return None;
        }
        acc = acc + size;
        i = i + 1;
    }
    proof {
        assert(views.take(items@.len() as int) =~= views);
    }
    Some(acc)
}

impl Entry {
    /// An entry from known parts, with a caller-chosen identity and
    /// creation time.
    pub fn new_at(
        name: Option<String>,
        items: Vec<Item>,
        working_directory: String,
        was_destructive: bool,
        uuid: Identity,
        created: i64,
    ) -> (r: Option<Entry>)
        ensures
            r matches Some(e) ==> {
                &&& e@ == (EntryView {
                    uuid,
                    name: opt_view(name),
                    created,
                    updated: created,
                    working_directory: working_directory@,
                    items: items@.map_values(|it: Item| it@),
                    total_size_bytes: e.total_size_bytes,
                    was_destructive,
                })
                &&& entry_wf(e@)
            },
            r is None ==> sum_item_sizes(items@.map_values(|it: Item| it@)) > u64::MAX,
    {
        let total = match total_of_items(&items) {
            Some(t) => t,
            None => {
                return None;
            },
        };
        Some(
            Entry {
                uuid,
                name,
                created,
                updated: created,
                working_directory,
                items,
                total_size_bytes: total,
                was_destructive,
            },
        )
    }

    /// An entry with a freshly drawn identity, stamped with the current
    /// time.
    pub fn new(
        name: Option<String>,
        items: Vec<Item>,
        working_directory: String,
        was_destructive: bool,
    ) -> (r: Option<Entry>)
        ensures
            r matches Some(e) ==> {
                &&& opt_view(e.name) == opt_view(name)
                &&& e@.items == items@.map_values(|it: Item| it@)
                &&& e@.working_directory == working_directory@
                &&& e.was_destructive == was_destructive
                &&& e.updated == e.created
                &&& entry_wf(e@)
            },
            r is None ==> sum_item_sizes(items@.map_values(|it: Item| it@)) > u64::MAX,
    {
        let uuid = fresh_identity();
        let created = now_timestamp();
        Entry::new_at(name, items, working_directory, was_destructive, uuid, created)
    }

    /// Stamps the entry as updated now; every other field is kept.
    pub fn touch(&mut self)
        ensures
            final(self).uuid == old(self).uuid,
            opt_view(final(self).name) == opt_view(old(self).name),
            final(self).created == old(self).created,
            final(self).working_directory@ == old(self).working_directory@,
            final(self)@.items == old(self)@.items,
            final(self).total_size_bytes == old(self).total_size_bytes,
            final(self).was_destructive == old(self).was_destructive,
    {
        self.updated = now_timestamp();
    }

    /// Whole hours between the entry's creation and `now`.
    pub fn age_hours(&self, now: i64) -> (r: i64)
        requires
            self.created <= now,
            now - self.created <= i64::MAX,
        ensures
            r == (now - self.created) / 3600,
    {
        (now - self.created) / 3600
    }

    /// Whole days between the entry's creation and `now`.
    pub fn age_days(&self, now: i64) -> (r: i64)
        requires
            self.created <= now,
            now - self.created <= i64::MAX,
        ensures
            r == (now - self.created) / 86400,
    {
        (now - self.created) / 86400
    }

    /// The first characters of the identity's canonical rendering.
    pub fn short_id(&self) -> (r: String)
        ensures
            r@ == id_chars(self.uuid.hi, self.uuid.lo).take(6),
    {
        self.uuid.short()
    }

    /// The entry's name, or its short identity when unnamed.
    pub fn display_name(&self) -> (r: String)
        ensures
            match opt_view(self.name) {
                Some(n) => r@ == n,
                None => r@ == id_chars(self.uuid.hi, self.uuid.lo).take(6),
            },
    {
        match &self.name {
            Some(n) => n.clone(),
            None => self.short_id(),
        }
    }

    /// The first item whose original path is the given one.
    pub fn get_item(&self, path: &str) -> (r: Option<&Item>)
        ensures
            r matches Some(it) ==> exists|i: int|
                0 <= i < self.items@.len() && self.items@[i]@ == it@ && it@.original_path
                    == path@,
            r is None ==> forall|i: int|
                0 <= i < self.items@.len() ==> self.items@[i]@.original_path != path@,
    {
        let mut i: usize = 0;
        while i < self.items.len()
            invariant
                i <= self.items@.len(),
                forall|j: int| 0 <= j < i ==> self.items@[j]@.original_path != path@,
            decreases self.items@.len() - i,
        {
            if str_eq(self.items[i].original_path.as_str(), path) {
                return Some(&self.items[i]);
            }
            i = i + 1;
        }
        None
    }
}

} // verus!
