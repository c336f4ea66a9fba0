//! Context inference: choosing one operation from flags and from which of
//! the named paths exist.  Pure with respect to the stores; the shell
//! supplies one existence bit per named path.

use vstd::prelude::*;
use crate::errors::{StashError, Ambiguity};
use crate::item::opt_view;
use crate::text::str_chars;
use vstd::string::StrSliceExecFns;

verus! {

/// Every input the command surface hands the resolver, as plain values.
#[derive(Debug)]
pub struct Cli {
    /// Files, directories or entry names to operate on.
    pub items: Vec<String>,
    /// A name for a new entry.
    pub name: Option<String>,
    /// Explicit push.
    pub push: bool,
    /// Explicit pop.
    pub pop: bool,
    /// Copy instead of move when stashing.
    pub copy: bool,
    /// Symlink to the stashed copy instead of moving.
    pub link: bool,
    /// Copy out without removing from the stash.
    pub peek: bool,
    /// Delete instead of restoring.
    pub delete: bool,
    /// Allow symlinking directories.
    pub allow_dirs: bool,
    /// List all entries.
    pub list: bool,
    /// Search entries by pattern.
    pub search: Option<String>,
    /// Show details about an entry or the whole stash.
    pub info: bool,
    /// Show operation history.
    pub history: bool,
    /// Undo the last operation.
    pub undo: bool,
    /// Clean entries older than the given number of days.
    pub clean: Option<Option<i64>>,
    /// Rename an entry, written `OLD:NEW`.
    pub rename: Option<String>,
    /// Export the stash to an archive at the given path.
    pub tar: Option<String>,
    /// Import a stash archive from the given path.
    pub import: Option<String>,
    /// Restore an entry to its original location.
    pub restore: bool,
    /// Restore or delete all entries.
    pub dump: bool,
}

/// The operation the resolver settles on.
#[derive(Debug)]
pub enum OperationMode {
    /// Stash the named paths.
    Push { copy: bool, link: bool },
    /// Restore one entry, named by the identifier when one was given.
    Pop { identifier: Option<String> },
    /// Restore the most recent entry.
    PopRecent,
    /// Copy an entry out without removing it.
    Peek,
    /// Restore an entry to its recorded working directory.
    Restore { delete: bool },
    /// Restore or delete all entries.
    Dump { delete: bool },
    /// List all entries.
    List,
    /// Search entries by pattern.
    Search(String),
    /// Show details.
    Info,
    /// Show operation history.
    History,
    /// Undo the last operation.
    Undo,
    /// Clean entries older than the given number of days.
    Clean(i64),
    /// Rename an entry.
    Rename { old: String, new: String },
    /// Export to an archive.
    Tar(String),
    /// Import from an archive.
    Import(String),
}

/// The views of the named items.
pub open spec fn strs_view(v: Seq<String>) -> Seq<Seq<char>> {
    v.map_values(|s: String| s@)
}

/// The items whose existence bit equals `want`, in order.
pub open spec fn select_items(items: Seq<Seq<char>>, flags: Seq<bool>, want: bool) -> Seq<
    Seq<char>,
>
    decreases items.len(),
{
    if items.len() == 0 || items.len() != flags.len() {
        Seq::empty()
    } else {
        let front = select_items(items.drop_last(), flags.drop_last(), want);
        if flags.last() == want {
            front.push(items.last())
        } else {
            front
        }
    }
}

/// Whether no informational or explicit flag decides the operation, so the
/// heuristic over path existence applies.
pub open spec fn heuristic_applies(cli: Cli) -> bool {
    &&& !cli.list
    &&& opt_view(cli.search) is None
    &&& !cli.info
    &&& !cli.history
    &&& !cli.undo
    &&& cli.clean is None
    &&& opt_view(cli.rename) is None
    &&& opt_view(cli.tar) is None
    &&& opt_view(cli.import) is None
    &&& !cli.dump
    &&& !cli.push
    &&& !cli.pop
    &&& !cli.peek
    &&& !cli.restore
}

/// The requested number of days for cleaning, with the documented default.
pub open spec fn clean_days_of(c: Option<Option<i64>>) -> i64 {
    match c {
        Some(Some(d)) => d,
        _ => 30,
    }
}

/// Infers the operation from the path list alone: everything existing means
/// push, nothing existing means restore-by-identifier (one path only), a
/// mixture is ambiguous and reports both partitions verbatim.
pub fn infer_from_context(cli: &Cli, items_exist: &Vec<bool>) -> (r: Result<
    OperationMode,
    StashError,
>)
    requires
        items_exist@.len() == cli.items@.len(),
    ensures
        cli.items@.len() == 0 ==> (r matches Ok(m) && m is PopRecent),
        cli.items@.len() > 0 && (forall|i: int|
            0 <= i < items_exist@.len() ==> items_exist@[i]) ==> (r matches Ok(m) && m matches
            OperationMode::Push { copy, link } && copy == cli.copy && link == cli.link),
        cli.items@.len() == 1 && !items_exist@[0] ==> (r matches Ok(m) && m matches
            OperationMode::Pop { identifier } && opt_view(identifier) matches Some(p) && p
            == cli.items@[0]@),
        cli.items@.len() > 1 && (forall|i: int|
            0 <= i < items_exist@.len() ==> !items_exist@[i]) ==> (r matches Err(e) && e matches
            StashError::AmbiguousOperation { ambiguity } && ambiguity matches
            Ambiguity::MultipleMissing { missing } && strs_view(missing@) == strs_view(
            cli.items@,
        )),
        (exists|i: int| 0 <= i < items_exist@.len() && items_exist@[i]) && (exists|i: int|
            0 <= i < items_exist@.len() && !items_exist@[i]) ==> (r matches Err(e) && e matches
            StashError::AmbiguousOperation { ambiguity } && ambiguity matches
            Ambiguity::MixedExistence { existing, missing } && strs_view(existing@)
            == select_items(strs_view(cli.items@), items_exist@, true) && strs_view(missing@)
            == select_items(strs_view(cli.items@), items_exist@, false)),
{
    let n = cli.items.len();
    if n == 0 {
        return Ok(OperationMode::PopRecent);
    }
    let mut existing: Vec<String> = Vec::new();
    let mut missing: Vec<String> = Vec::new();
    let mut i: usize = 0;
    while i < n
        invariant
            n == cli.items@.len(),
            items_exist@.len() == n,
            i <= n,
            strs_view(existing@) == select_items(
                strs_view(cli.items@).take(i as int),
                items_exist@.take(i as int),
                true,
            ),
            strs_view(missing@) == select_items(
                strs_view(cli.items@).take(i as int),
                items_exist@.take(i as int),
                false,
            ),
            existing@.len() + missing@.len() == i,
        decreases n - i,
    {
        proof {
            let its = strs_view(cli.items@).take(i + 1);
            let fls = items_exist@.take(i + 1);
            assert(its.drop_last() =~= strs_view(cli.items@).take(i as int));
            assert(fls.drop_last() =~= items_exist@.take(i as int));
            assert(its.last() == strs_view(cli.items@)[i as int]);
            assert(fls.last() == items_exist@[i as int]);
        }
        if items_exist[i] {
            existing.push(cli.items[i].clone());
            proof {
                assert(strs_view(existing@) =~= select_items(
                    strs_view(cli.items@).take(i + 1),
                    items_exist@.take(i + 1),
                    true,
                ));
            }
        } else {
            missing.push(cli.items[i].clone());
            proof {
                assert(strs_view(missing@) =~= select_items(
                    strs_view(cli.items@).take(i + 1),
                    items_exist@.take(i + 1),
                    false,
                ));
            }
        }
        i = i + 1;
    }
    proof {
        assert(strs_view(cli.items@).take(n as int) =~= strs_view(cli.items@));
        assert(items_exist@.take(n as int) =~= items_exist@);
    }
    if missing.len() == 0 {
        proof {
            if exists|k: int| 0 <= k < n && !items_exist@[k] {
                let k = choose|k: int| 0 <= k < n && !items_exist@[k];
                lemma_select_nonempty(strs_view(cli.items@), items_exist@, false, k);
            }
        }
        // Every path exists: stash them all.
        Ok(OperationMode::Push { copy: cli.copy, link: cli.link })
    } else if existing.len() == 0 {
        proof {
            if exists|k: int| 0 <= k < n && items_exist@[k] {
                let k = choose|k: int| 0 <= k < n && items_exist@[k];
                lemma_select_nonempty(strs_view(cli.items@), items_exist@, true, k);
            }
        }
        // No path exists: the single path names an entry to restore.
        if n == 1 {
            Ok(OperationMode::Pop { identifier: Some(cli.items[0].clone()) })
        } else {
            proof {
                if forall|k: int| 0 <= k < n ==> !items_exist@[k] {
                    lemma_select_all(strs_view(cli.items@), items_exist@, false);
                }
            }
            Err(
                StashError::AmbiguousOperation {
                    ambiguity: Ambiguity::MultipleMissing { missing },
                },
            )
        }
    } else {
        proof {
            if forall|k: int| 0 <= k < n ==> items_exist@[k] {
                lemma_select_all(strs_view(cli.items@), items_exist@, true);
            }
            if forall|k: int| 0 <= k < n ==> !items_exist@[k] {
                lemma_select_all(strs_view(cli.items@), items_exist@, false);
            }
        }
        // Some paths exist and some do not: refuse to guess.
        Err(
            StashError::AmbiguousOperation {
                ambiguity: Ambiguity::MixedExistence { existing, missing },
            },
        )
    }
}

/// An item whose flag equals `want` makes the selection non-empty.
proof fn lemma_select_nonempty(items: Seq<Seq<char>>, flags: Seq<bool>, want: bool, k: int)
    requires
        items.len() == flags.len(),
        0 <= k < flags.len(),
        flags[k] == want,
    ensures
        select_items(items, flags, want).len() > 0,
    decreases items.len(),
{
    if k == items.len() - 1 {
    } else {
        lemma_select_nonempty(items.drop_last(), flags.drop_last(), want, k);
    }
}

/// When every flag equals `want`, selection keeps the whole list.
proof fn lemma_select_all(items: Seq<Seq<char>>, flags: Seq<bool>, want: bool)
    requires
        items.len() == flags.len(),
        forall|i: int| 0 <= i < flags.len() ==> flags[i] == want,
    ensures
        select_items(items, flags, want) == items,
    decreases items.len(),
{
    if items.len() == 0 {
        assert(select_items(items, flags, want) =~= items);
    } else {
        lemma_select_all(items.drop_last(), flags.drop_last(), want);
        assert(select_items(items, flags, want) =~= items);
    }
}

/// Resolves the operation: informational and management intents always win,
/// explicit push/pop/peek/restore flags come second, and the existence
/// heuristic decides only when nothing else does.
pub fn infer_operation(cli: &Cli, items_exist: &Vec<bool>) -> (r: Result<
    OperationMode,
    StashError,
>)
    requires
        items_exist@.len() == cli.items@.len(),
    ensures
        cli.list ==> (r matches Ok(m) && m is List),
        !cli.list ==> (opt_view(cli.search) matches Some(p) ==> (r matches Ok(m) && m matches
            OperationMode::Search(q) && q@ == p)),
        !cli.list && opt_view(cli.search) is None && cli.info ==> (r matches Ok(m)
            && m is Info),
        !cli.list && opt_view(cli.search) is None && !cli.info && cli.history ==> (r matches
            Ok(m) && m is History),
        !cli.list && opt_view(cli.search) is None && !cli.info && !cli.history && cli.undo ==> (
        r matches Ok(m) && m is Undo),
        !cli.list && opt_view(cli.search) is None && !cli.info && !cli.history && !cli.undo
            && cli.clean is Some ==> (r matches Ok(m) && m matches OperationMode::Clean(d) && d
            == clean_days_of(cli.clean)),
        heuristic_applies(*cli) ==> {
            &&& (cli.items@.len() == 0 ==> (r matches Ok(m) && m is PopRecent))
            &&& (cli.items@.len() > 0 && (forall|i: int|
                0 <= i < items_exist@.len() ==> items_exist@[i]) ==> (r matches Ok(m)
                && m matches OperationMode::Push { copy, link } && copy == cli.copy && link
                == cli.link))
            &&& (cli.items@.len() == 1 && !items_exist@[0] ==> (r matches Ok(m) && m matches
                OperationMode::Pop { identifier } && opt_view(identifier) matches Some(p) && p
                == cli.items@[0]@))
            &&& (cli.items@.len() > 1 && (forall|i: int|
                0 <= i < items_exist@.len() ==> !items_exist@[i]) ==> (r matches Err(e)
                && e matches StashError::AmbiguousOperation { ambiguity } && ambiguity matches
                Ambiguity::MultipleMissing { missing } && strs_view(missing@) == strs_view(
                cli.items@,
            )))
            &&& ((exists|i: int| 0 <= i < items_exist@.len() && items_exist@[i]) && (exists|
                i: int,
            | 0 <= i < items_exist@.len() && !items_exist@[i]) ==> (r matches Err(e) && e matches
                StashError::AmbiguousOperation { ambiguity } && ambiguity matches
                Ambiguity::MixedExistence { existing, missing } && strs_view(existing@)
                == select_items(strs_view(cli.items@), items_exist@, true) && strs_view(
                missing@,
            ) == select_items(strs_view(cli.items@), items_exist@, false)))
        },
{
    if cli.list {
        return Ok(OperationMode::List);
    }
    if let Some(pattern) = &cli.search {
        return Ok(OperationMode::Search(pattern.clone()));
    }
    if cli.info {
        return Ok(OperationMode::Info);
    }
    if cli.history {
        return Ok(OperationMode::History);
    }
    if cli.undo {
        return Ok(OperationMode::Undo);
    }
    if let Some(days) = &cli.clean {
        let d = match days {
            Some(d) => *d,
            None => 30,
        };
        return Ok(OperationMode::Clean(d));
    }
    if let Some(spec_text) = &cli.rename {
        return match split_rename(spec_text.as_str()) {
            Some((old, new)) => Ok(OperationMode::Rename { old, new }),
            None => Err(
                StashError::InvalidInput {
                    context: "rename must be in OLD:NEW format".to_owned(),
                },
            ),
        };
    }
    if let Some(path) = &cli.tar {
        return Ok(OperationMode::Tar(path.clone()));
    }
    if let Some(path) = &cli.import {
        return Ok(OperationMode::Import(path.clone()));
    }
    if cli.dump {
        return Ok(OperationMode::Dump { delete: cli.delete });
    }
    if cli.push {
        return Ok(OperationMode::Push { copy: cli.copy, link: cli.link });
    }
    if cli.pop {
        let identifier = if cli.items.len() > 0 {
            Some(cli.items[0].clone())
        } else {
            None
        };
        return Ok(OperationMode::Pop { identifier });
    }
    if cli.peek {
        return Ok(OperationMode::Peek);
    }
    if cli.restore {
        return Ok(OperationMode::Restore { delete: cli.delete });
    }
    infer_from_context(cli, items_exist)
}

/// Splits a rename request at its first colon; `None` when no colon occurs.
pub fn split_rename(text: &str) -> (r: Option<(String, String)>)
    ensures
        r matches Some((old, new)) ==> exists|k: int|
            {
                &&& 0 <= k < text@.len()
                &&& text@[k] == ':'
                &&& (forall|j: int| 0 <= j < k ==> text@[j] != ':')
                &&& old@ == text@.take(k)
                &&& new@ == text@.skip(k + 1)
            },
        r is None ==> forall|j: int| 0 <= j < text@.len() ==> text@[j] != ':',
{
    let n = text.unicode_len();
    let mut k: usize = 0;
    while k < n
        invariant
            n == text@.len(),
            k <= n,
            forall|j: int| 0 <= j < k ==> text@[j] != ':',
        decreases n - k,
    {
        if text.get_char(k) == ':' {
            let old_part = text.substring_char(0, k);
            let new_part = text.substring_char(k + 1, n);
            proof {
                assert(text@.subrange(0, k as int) =~= text@.take(k as int));
                assert(text@.subrange(k + 1, n as int) =~= text@.skip(k + 1));
            }
            return Some((old_part.to_owned(), new_part.to_owned()));
        }
        k = k + 1;
    }
    None
}

} // verus!
