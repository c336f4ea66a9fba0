//! Engine-wide laws: properties that tie several operations together,
//! stated over the same spec functions the operations' contracts use.

use vstd::prelude::*;
use crate::ids::Identity;
use crate::item::ItemView;
use crate::manager::{ActView, RelocateMode, stash_plan_ok};
use crate::stash::{Stash, MetaView, contains_id, contains_name, sum_meta_sizes};

verus! {

/// A summary just registered at the end of the index is found again both
/// by its identity and, when named, by its name.
pub proof fn lemma_registered_entry_is_resolvable(entries: Seq<MetaView>, meta: MetaView)
    requires
        entries.len() > 0,
        entries.last() == meta,
    ensures
        contains_id(entries, meta.uuid),
        meta.name matches Some(n) ==> contains_name(entries, n),
{
    assert(entries[entries.len() - 1].uuid == meta.uuid);
    match meta.name {
        Some(n) => {
            assert(crate::stash::name_matches(entries[entries.len() - 1], n));
        },
        None => {},
    }
}

/// A move-mode push plan relocates every item by moving it: once the plan
/// runs, no original source path is left behind.
pub proof fn lemma_move_plan_consumes_sources(
    plan: Seq<ActView>,
    root: Seq<char>,
    id: Identity,
    items: Seq<ItemView>,
)
    requires
        stash_plan_ok(plan, root, id, items, RelocateMode::Move),
    ensures
        forall|i: int|
            0 <= i < items.len() ==> (#[trigger] plan[1 + i] matches ActView::Stash { mode, .. }
                && mode is Move),
{
}

/// A copy-mode push plan relocates every item by copying it: the originals
/// stay in place untouched.
pub proof fn lemma_copy_plan_keeps_sources(
    plan: Seq<ActView>,
    root: Seq<char>,
    id: Identity,
    items: Seq<ItemView>,
)
    requires
        stash_plan_ok(plan, root, id, items, RelocateMode::Copy),
    ensures
        forall|i: int|
            0 <= i < items.len() ==> (#[trigger] plan[1 + i] matches ActView::Stash { mode, .. }
                && mode is Copy),
{
}

/// Every push plan performs its mutations in the consistency order: all
/// relocations strictly before the manifest write, the manifest before the
/// index document, the index document before the journal document.
pub proof fn lemma_stash_plan_mutation_order(
    plan: Seq<ActView>,
    root: Seq<char>,
    id: Identity,
    items: Seq<ItemView>,
    mode: RelocateMode,
)
    requires
        stash_plan_ok(plan, root, id, items, mode),
    ensures
        forall|i: int, j: int|
            0 <= i < plan.len() && 0 <= j < plan.len() && #[trigger] plan[i] is Stash
                && #[trigger] plan[j] is WriteManifest ==> i < j,
        forall|i: int, j: int|
            0 <= i < plan.len() && 0 <= j < plan.len() && #[trigger] plan[i] is WriteManifest
                && #[trigger] plan[j] is PersistIndex ==> i < j,
        forall|i: int, j: int|
            0 <= i < plan.len() && 0 <= j < plan.len() && #[trigger] plan[i] is PersistIndex
                && #[trigger] plan[j] is PersistJournal ==> i < j,
{
    let n = items.len() as int;
    assert forall|i: int| 0 <= i < plan.len() && plan[i] is Stash implies 1 <= i <= n by {
        if i == 0 || i == n + 1 || i == n + 2 || i == n + 3 {
        }
    }
    assert forall|j: int| 0 <= j < plan.len() && plan[j] is WriteManifest implies j == n
        + 1 by {
        if 1 <= j <= n {
            assert(plan[1 + (j - 1)] matches ActView::Stash { .. });
        }
    }
    assert forall|j: int| 0 <= j < plan.len() && plan[j] is PersistIndex implies j == n + 2 by {
        if 1 <= j <= n {
            assert(plan[1 + (j - 1)] matches ActView::Stash { .. });
        }
    }
    assert forall|j: int| 0 <= j < plan.len() && plan[j] is PersistJournal implies j == n
        + 3 by {
        if 1 <= j <= n {
            assert(plan[1 + (j - 1)] matches ActView::Stash { .. });
        }
    }
}

/// The registry's aggregate size always equals the sum of its summaries'
/// sizes.
pub proof fn lemma_index_total_is_sum(stash: Stash)
    requires
        stash.wf(),
    ensures
        stash.total_size_bytes == sum_meta_sizes(stash@.entries),
{
}

} // verus!
