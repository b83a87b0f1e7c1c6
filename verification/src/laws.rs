//! Store-wide laws that relate several operations, stated over the
//! mathematical model and proved once and for all.

use vstd::prelude::*;

use crate::boot::boot_run;
use crate::migrations::{run_model, LAST_MIGRATION};
use crate::model::StoreModel;
use crate::state::{CatalogState, APPLICATION_ID};

verus! {

/// Law: reopening a fully migrated store changes no content — the open-time
/// migration run is empty, so every table reloads exactly the rows the
/// operations left behind. (The settings rows are governed separately by the
/// latch and identity clauses of opening.)
pub proof fn lemma_reopen_preserves_content(m: StoreModel)
    requires
        m.app_id == APPLICATION_ID as int,
        m.version >= LAST_MIGRATION as int,
    ensures
        boot_run(m) == m,
{
    assert(run_model(m, m.version + 1, LAST_MIGRATION as int) == m);
}

/// One successful single-identifier allocation from the user namespace:
/// exactly what the allocator operation guarantees when asked for one
/// identifier.
pub open spec fn user_alloc_step(pre: CatalogState, post: CatalogState, id: u64) -> bool {
    &&& id == pre.user_next_gid
    &&& pre.user_next_gid + 1 <= i64::MAX
    &&& post == (CatalogState { user_next_gid: (pre.user_next_gid + 1) as u64, ..pre })
}

/// Law: any run of successful single-identifier user allocations returns
/// exactly the consecutive block starting at the first counter value — no
/// identifier is skipped, repeated, or reissued — and leaves the counter one
/// past the block.
pub proof fn lemma_user_allocation_block(states: Seq<CatalogState>, ids: Seq<u64>)
    requires
        states.len() == ids.len() + 1,
        forall|i: int|
            0 <= i < ids.len() ==> user_alloc_step(
                #[trigger] states[i],
                states[i + 1],
                ids[i],
            ),
    ensures
        forall|i: int| 0 <= i < ids.len() ==> ids[i] == states[0].user_next_gid + i,
        states.last().user_next_gid == states[0].user_next_gid + ids.len(),
    decreases ids.len(),
{
    if ids.len() == 0 {
    } else {
        let n = ids.len();
        lemma_user_allocation_block(states.drop_last(), ids.drop_last());
        assert(states.drop_last().len() == n);
        assert(states.drop_last()[0] == states[0]);
        assert(states.drop_last().last() == states[n - 1]);
        assert(user_alloc_step(states[n - 1], states[n as int], ids[n - 1]));
        assert forall|i: int| 0 <= i < n implies ids[i] == states[0].user_next_gid + i by {
            if i < n - 1 {
                assert(ids.drop_last()[i] == ids[i]);
            } else {
                assert(states[n - 1].user_next_gid == states[0].user_next_gid + (n - 1));
            }
        }
    }
}

} // verus!
