//! The bridge's global guarantees, stated once over the model and proved for
//! every reachable state.  Each law speaks through the same spec functions
//! the executable transitions are specified with, so what is proved here is
//! exactly what the running bridge does.

use vstd::prelude::*;

use crate::bridge::BridgeModel;
use crate::bridge::LookupOutcome;
use crate::bridge::Query;
use crate::bridge::SlotState;
use crate::bridge::bridge_inv;
use crate::bridge::can_submit;
use crate::bridge::cancel_pending;
use crate::bridge::pending;
use crate::bridge::resolved;
use crate::bridge::spec_complete;
use crate::bridge::spec_dispatch;
use crate::bridge::spec_end_of_stream;
use crate::bridge::spec_stop;
use crate::bridge::spec_submit;

verus! {

/// Every query is owed exactly one response, and the bridge never owes it
/// twice: once the worker has stopped, every slot ever created carries its
/// one resolution — an outcome, a cancellation, or the mark of having been
/// consumed.  (That the resolution is observed at most once is `take`'s
/// contract: it consumes the slot it reads.)
pub proof fn lemma_stopped_all_resolved(m: BridgeModel)
    requires
        bridge_inv(m),
        m.worker is Stopped,
    ensures
        forall|s: int| 0 <= s < m.slots.len() ==> resolved(#[trigger] m.slots[s]),
{
}

/// A slot's resolution — the one written outcome, a cancellation, or its
/// consumption — is final: every transition of the bridge — another
/// submission, a dispatch, another query's completion, end-of-stream, even a
/// fatal stop — leaves a resolved slot exactly as it is.  In particular an
/// outcome, once written, is never written again.
pub proof fn lemma_resolution_stable(
    m: BridgeModel,
    s: int,
    producer: u64,
    q: Query,
    s2: int,
    o2: LookupOutcome,
)
    requires
        bridge_inv(m),
        0 <= s < m.slots.len(),
        resolved(m.slots[s]),
    ensures
        spec_submit(m, producer, q).slots[s] == m.slots[s],
        m.queue.len() > 0 ==> spec_dispatch(m).slots[s] == m.slots[s],
        0 <= s2 < m.slots.len() && s2 != s ==> spec_complete(m, s2, o2).slots[s] == m.slots[s],
        spec_end_of_stream(m).slots[s] == m.slots[s],
        spec_stop(m).slots[s] == m.slots[s],
{
    if m.queue.len() > 0 {
        assert(m.slots[m.queue[0].slot as int] is Queued);
    }
}

/// Dispatch order is FIFO per producer: of two envelopes submitted through
/// the same producer end, the earlier submission holds the smaller slot id
/// and stands nearer the front of the queue — and `dispatch_next` always
/// takes the front.  Envelopes from distinct producers carry no ordering
/// obligation of their own (the model's single queue happens to order them
/// globally, which only strengthens the guarantee).
pub proof fn lemma_fifo_per_producer(m: BridgeModel, i: int, j: int)
    requires
        bridge_inv(m),
        0 <= i < j < m.queue.len(),
        m.queue[i].producer == m.queue[j].producer,
    ensures
        m.queue[i].slot < m.queue[j].slot,
{
}

/// Stopping the worker leaves no caller hanging and no submission silently
/// dropped: every slot still owed a resolution is cancelled, every slot
/// already resolved is untouched, every slot of the stopped bridge is
/// resolved, and no submission ever succeeds against the stopped bridge.
pub proof fn lemma_stop_resolves_everything(m: BridgeModel)
    requires
        bridge_inv(m),
    ensures
        forall|s: int|
            0 <= s < m.slots.len() && pending(#[trigger] m.slots[s]) ==> spec_stop(m).slots[s]
                is Cancelled,
        forall|s: int|
            0 <= s < m.slots.len() && resolved(#[trigger] m.slots[s]) ==> spec_stop(m).slots[s]
                == m.slots[s],
        forall|s: int|
            0 <= s < spec_stop(m).slots.len() ==> resolved(#[trigger] spec_stop(m).slots[s]),
        !can_submit(spec_stop(m)),
{
    assert forall|s: int| 0 <= s < spec_stop(m).slots.len() implies resolved(
        #[trigger] spec_stop(m).slots[s],
    ) by {
        assert(spec_stop(m).slots[s] == cancel_pending(m.slots[s]));
    }
}

/// A handle and any clone of it are interchangeable: submitting a query
/// creates the same fresh slot, the same queue of envelopes — same slots,
/// same queries, in the same places — and the same worker phase, whichever
/// producer end carried it.  Only the recorded producer identity differs,
/// and no transition's outcome depends on it.
pub proof fn lemma_submit_handle_independent(m: BridgeModel, p1: u64, p2: u64, q: Query)
    ensures
        spec_submit(m, p1, q).worker == spec_submit(m, p2, q).worker,
        spec_submit(m, p1, q).slots == spec_submit(m, p2, q).slots,
        spec_submit(m, p1, q).queue.len() == spec_submit(m, p2, q).queue.len(),
        forall|k: int|
            0 <= k < spec_submit(m, p1, q).queue.len() ==> {
                &&& (#[trigger] spec_submit(m, p1, q).queue[k]).slot == spec_submit(
                    m,
                    p2,
                    q,
                ).queue[k].slot
                &&& spec_submit(m, p1, q).queue[k].query == spec_submit(m, p2, q).queue[k].query
            },
{
    assert(spec_submit(m, p1, q).slots =~= spec_submit(m, p2, q).slots);
}

/// One query's completion is contained: delivering an outcome for one slot —
/// a failure as much as a success — writes that slot and that slot alone,
/// and moves no other envelope.  A concurrently in-flight query sees
/// nothing of it.
pub proof fn lemma_completion_isolated(m: BridgeModel, s1: int, o: LookupOutcome, s2: int)
    requires
        0 <= s1 < m.slots.len(),
        0 <= s2 < m.slots.len(),
        s1 != s2,
    ensures
        spec_complete(m, s1, o).slots[s1] == SlotState::Written(o),
        spec_complete(m, s1, o).slots[s2] == m.slots[s2],
        spec_complete(m, s1, o).queue == m.queue,
{
}

/// Shutdown is idempotent: stopping a bridge twice is stopping it once, and
/// stopping an already-stopped bridge changes nothing at all — in
/// particular, no slot is ever resolved a second time.
pub proof fn lemma_stop_idempotent(m: BridgeModel)
    requires
        bridge_inv(m),
    ensures
        spec_stop(spec_stop(m)) == spec_stop(m),
        m.worker is Stopped ==> spec_stop(m) == m,
{
    assert forall|s: int| 0 <= s < m.slots.len() implies #[trigger] spec_stop(
        spec_stop(m),
    ).slots[s] == spec_stop(m).slots[s] by {
        assert(spec_stop(m).slots[s] == cancel_pending(m.slots[s]));
    }
    assert(spec_stop(spec_stop(m)).slots =~= spec_stop(m).slots);
    assert(spec_stop(spec_stop(m)) =~= spec_stop(m));
    if m.worker is Stopped {
        assert forall|s: int| 0 <= s < m.slots.len() implies #[trigger] spec_stop(m).slots[s]
            == m.slots[s] by {
            assert(resolved(m.slots[s]));
        }
        assert(spec_stop(m).slots =~= m.slots);
        assert(spec_stop(m) =~= m);
    }
}

} // verus!
