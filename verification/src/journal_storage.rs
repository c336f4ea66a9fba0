//! The operation journal: an append-only, advisory history of executed
//! operations.  The in-memory list is authoritative for ordering; the shell
//! persists it wholesale after each mutation.

use vstd::prelude::*;
use crate::ids::Identity;
use crate::operation::{Operation, OpView, kind_entry_id};

verus! {

/// The views of a vector of records.
pub open spec fn ops_view(s: Seq<Operation>) -> Seq<OpView> {
    s.map_values(|o: Operation| o@)
}

/// Whether a record should survive compaction against the given set of
/// live identities: records naming no entry always survive.
pub open spec fn compact_keeps(o: OpView, live: Seq<Identity>) -> bool {
    match kind_entry_id(o.kind) {
        Some(id) => live.contains(id),
        None => true,
    }
}

/// The journal and the path its document lives at.
#[derive(Debug)]
pub struct JournalStorage {
    journal: Vec<Operation>,
    log_file: String,
}

impl JournalStorage {
    /// The journal's records, oldest first.
    pub closed spec fn records(&self) -> Seq<OpView> {
        ops_view(self.journal@)
    }

    /// The path the journal document lives at.
    pub closed spec fn path(&self) -> Seq<char> {
        self.log_file@
    }

    /// An empty journal over the given document path.
    pub fn new(log_file: String) -> (r: JournalStorage)
        ensures
            r.records() == Seq::<OpView>::empty(),
            r.path() == log_file@,
    {
        let r = JournalStorage { journal: Vec::new(), log_file };
        proof {
            assert(r.records() =~= Seq::<OpView>::empty());
        }
        r
    }

    /// Replaces the in-memory journal with records read back from the
    /// document.
    pub fn reload(&mut self, loaded: Vec<Operation>)
        ensures
            final(self).records() == ops_view(loaded@),
            final(self).path() == old(self).path(),
    {
        self.journal = loaded;
    }

    /// The records themselves, for persisting the document.
    pub fn operations(&self) -> (r: &Vec<Operation>)
        ensures
            ops_view(r@) == self.records(),
    {
        &self.journal
    }

    /// The path the journal document lives at.
    pub fn log_path(&self) -> (r: &str)
        ensures
            r@ == self.path(),
    {
        self.log_file.as_str()
    }

    /// Appends one record; every existing record is kept in place.
    pub fn append(&mut self, operation: Operation)
        ensures
            final(self).records() == old(self).records().push(operation@),
            final(self).path() == old(self).path(),
    {
        self.journal.push(operation);
        proof {
            assert(self.records() =~= old(self).records().push(operation@));
        }
    }

    /// The most recent record, if any.
    pub fn last(&self) -> (r: Option<&Operation>)
        ensures
            self.records().len() == 0 ==> r is None,
            self.records().len() > 0 ==> (r matches Some(o) && o@ == self.records().last()),
    {
        if self.journal.len() == 0 {
            None
        } else {
            Some(&self.journal[self.journal.len() - 1])
        }
    }

    /// Every record strictly newer than the given time, oldest first.
    pub fn since(&self, since: i64) -> (r: Vec<Operation>)
        ensures
            ops_view(r@) == self.records().filter(|o: OpView| o.timestamp > since),
    {
        let mut r: Vec<Operation> = Vec::new();
        let mut i: usize = 0;
        while i < self.journal.len()
            invariant
                i <= self.journal@.len(),
                ops_view(r@) == self.records().take(i as int).filter(
                    |o: OpView| o.timestamp > since,
                ),
            decreases self.journal@.len() - i,
        {
            proof {
                reveal(Seq::filter);
                assert(self.records()[i as int] == self.journal@[i as int]@);
                let prefix = self.records().take(i + 1);
                assert(prefix.drop_last() =~= self.records().take(i as int));
                assert(prefix.last() == self.records()[i as int]);
            }
            if self.journal[i].timestamp > since {
                r.push(self.journal[i].clone());
            }
            proof {
                assert(ops_view(r@) =~= self.records().take(i + 1).filter(
                    |o: OpView| o.timestamp > since,
                ));
            }
            i = i + 1;
        }
        proof {
            assert(self.records().take(self.records().len() as int) =~= self.records());
        }
        r
    }

    /// Every record that speaks of the given entry, oldest first.
    pub fn for_entry(&self, entry_id: &Identity) -> (r: Vec<Operation>)
        ensures
            ops_view(r@) == self.records().filter(
                |o: OpView| kind_entry_id(o.kind) == Some(*entry_id),
            ),
    {
        let mut r: Vec<Operation> = Vec::new();
        let mut i: usize = 0;
        while i < self.journal.len()
            invariant
                i <= self.journal@.len(),
                ops_view(r@) == self.records().take(i as int).filter(
                    |o: OpView| kind_entry_id(o.kind) == Some(*entry_id),
                ),
            decreases self.journal@.len() - i,
        {
            proof {
                reveal(Seq::filter);
                assert(self.records()[i as int] == self.journal@[i as int]@);
                let prefix = self.records().take(i + 1);
                assert(prefix.drop_last() =~= self.records().take(i as int));
                assert(prefix.last() == self.records()[i as int]);
            }
            if self.journal[i].involves_entry(entry_id) {
                r.push(self.journal[i].clone());
            }
            proof {
                assert(ops_view(r@) =~= self.records().take(i + 1).filter(
                    |o: OpView| kind_entry_id(o.kind) == Some(*entry_id),
                ));
            }
            i = i + 1;
        }
        proof {
            assert(self.records().take(self.records().len() as int) =~= self.records());
        }
        r
    }

    /// The most recent `n` records, in append order: exactly the suffix of
    /// the journal of length at most `n`.
    pub fn recent(&self, n: usize) -> (r: Vec<Operation>)
        ensures
            ops_view(r@) == self.records().skip(
                if n < self.records().len() {
                    self.records().len() - n
                } else {
                    0
                },
            ),
            r@.len() <= n,
    {
        let len = self.journal.len();
        let start = if n < len {
            len - n
        } else {
            0
        };
        let mut r: Vec<Operation> = Vec::new();
        let mut i: usize = start;
        while i < len
            invariant
                start <= i <= len,
                len == self.journal@.len(),
                r@.len() == i - start,
                forall|k: int| 0 <= k < i - start ==> #[trigger] r@[k]@ == self.journal@[
                    start + k
                ]@,
            decreases len - i,
        {
            r.push(self.journal[i].clone());
            i = i + 1;
        }
        proof {
            assert(ops_view(r@) =~= self.records().skip(start as int));
        }
        r
    }

    /// Forgets every record.
    pub fn clear(&mut self)
        ensures
            final(self).records() == Seq::<OpView>::empty(),
            final(self).path() == old(self).path(),
    {
        self.journal = Vec::new();
        proof {
            assert(self.records() =~= Seq::<OpView>::empty());
        }
    }

    /// Drops records that speak of entries absent from the live set;
    /// records that speak of no entry are kept.
    pub fn compact(&mut self, existing_entry_ids: &Vec<Identity>)
        ensures
            final(self).records() == old(self).records().filter(
                |o: OpView| compact_keeps(o, existing_entry_ids@),
            ),
            final(self).path() == old(self).path(),
    {
        let ghost old_records = self.records();
        let mut kept: Vec<Operation> = Vec::new();
        let mut i: usize = 0;
        while i < self.journal.len()
            invariant
                old_records == self.records(),
                i <= self.journal@.len(),
                ops_view(kept@) == old_records.take(i as int).filter(
                    |o: OpView| compact_keeps(o, existing_entry_ids@),
                ),
            decreases self.journal@.len() - i,
        {
            proof {
                reveal(Seq::filter);
                assert(old_records[i as int] == self.journal@[i as int]@);
                let prefix = old_records.take(i + 1);
                assert(prefix.drop_last() =~= old_records.take(i as int));
                assert(prefix.last() == old_records[i as int]);
            }
            let keep = match self.journal[i].entry_id() {
                Some(id) => ids_contain(existing_entry_ids, &id),
                None => true,
            };
            if keep {
                kept.push(self.journal[i].clone());
            }
            proof {
                assert(ops_view(kept@) =~= old_records.take(i + 1).filter(
                    |o: OpView| compact_keeps(o, existing_entry_ids@),
                ));
            }
            i = i + 1;
        }
        proof {
            assert(old_records.take(old_records.len() as int) =~= old_records);
        }
        self.journal = kept;
    }
}

/// Whether the vector holds the given identity.
pub fn ids_contain(ids: &Vec<Identity>, id: &Identity) -> (r: bool)
    ensures
        r == ids@.contains(*id),
{
    let mut i: usize = 0;
    while i < ids.len()
        invariant
            i <= ids@.len(),
            forall|j: int| 0 <= j < i ==> ids@[j] != *id,
        decreases ids@.len() - i,
    {
        if ids[i].hi == id.hi && ids[i].lo == id.lo {
            return true;
        }
        i = i + 1;
    }
    false
}

} // verus!
