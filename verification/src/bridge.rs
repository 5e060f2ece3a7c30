//! The verified core of the request/response bridge.
//!
//! The bridge couples many caller threads to one worker thread: callers
//! enqueue request envelopes through a cloneable handle, the worker dispatches
//! each envelope to a lookup service and writes the answer into the
//! envelope's single-use completion slot.  This module holds the protocol
//! itself — slot lifecycle, queue order, worker phases — as an executable
//! state machine with contracts.  The surrounding program performs the
//! outside work (spawning the worker thread, running its event loop, the
//! actual resolution) and drives this machine one event at a time.

use vstd::prelude::*;

use crate::WorkerState;

verus! {

/// An opaque query payload, e.g. the octets of an address to resolve.
/// Immutable once submitted; owned by its envelope until dispatched.
#[derive(Debug, Clone, PartialEq, Eq)]
pub struct Query {
    pub bytes: Vec<u8>,
}

/// What the lookup service produced for one query.  A failure of the service
/// is contained here as an ordinary outcome, never as a channel-level error,
/// so one query's failure cannot disturb another in flight.
#[derive(Debug, Clone, PartialEq, Eq)]
pub enum LookupOutcome {
    /// The service resolved the query to a sequence of names.
    Resolved(Vec<String>),
    /// The service reported an error for this query.
    LookupFailed,
}

/// What awaiting a completion slot yields.
#[derive(Debug, Clone, PartialEq, Eq)]
pub enum AwaitResult {
    /// The worker wrote exactly one outcome for this query.
    Completed(LookupOutcome),
    /// The slot's producer end was destroyed without a write: the worker
    /// terminated, or discarded the envelope while shutting down.
    Cancelled,
}

/// The error raised synchronously at submission time.
#[derive(Debug, Clone, PartialEq, Eq)]
pub enum SubmitError {
    /// The request queue is closed: the worker is no longer accepting
    /// envelopes, and the bridge is permanently unavailable.
    SubmissionFailed,
}

/// The lifecycle of one completion slot.  A slot is created `Queued`, moves
/// to `InFlight` when its envelope is dispatched, and is resolved exactly
/// once: either `Written` with an outcome or `Cancelled`.  Awaiting the slot
/// consumes that resolution.
#[derive(Debug, Clone, PartialEq, Eq)]
pub enum SlotState {
    /// The envelope sits in the request queue, not yet dispatched.
    Queued,
    /// The worker dispatched the query; the lookup is running.
    InFlight,
    /// The worker wrote the lookup's outcome; at most one write ever happens.
    Written(LookupOutcome),
    /// The producer end was dropped without a write.
    Cancelled,
    /// The caller consumed the slot's resolution.
    Consumed,
}

/// A queued unit pairing one query with its completion slot, tagged with the
/// producer that submitted it.  Envelopes move from caller to worker and are
/// consumed exactly once.
#[derive(Debug, Clone, PartialEq, Eq)]
pub struct Envelope {
    /// Which producer end of the queue submitted this envelope.
    pub producer: u64,
    /// The index of the completion slot created for this query.
    pub slot: usize,
    /// The query payload.
    pub query: Query,
}

/// The caller-facing submission endpoint.  In the running system a handle
/// owns a clone of the request queue's producer end; the model identifies
/// that producer end by a number.  Cloning a handle shares the same producer.
#[derive(Debug, Clone, Copy, PartialEq, Eq)]
pub struct ClientHandle {
    /// Identifies the producer end this handle submits through.
    pub producer: u64,
}

/// The bridge's whole state, as contracts speak of it.
#[verifier::ext_equal]
pub ghost struct BridgeModel {
    /// The worker loop's phase.
    pub worker: WorkerState,
    /// The request queue, oldest envelope first.
    pub queue: Seq<Envelope>,
    /// Every completion slot ever created, indexed by slot id.
    pub slots: Seq<SlotState>,
}

/// A slot that has received its one resolution (possibly already consumed).
pub open spec fn resolved(s: SlotState) -> bool {
    s is Written || s is Cancelled || s is Consumed
}

/// A slot still owed a resolution.
pub open spec fn pending(s: SlotState) -> bool {
    s is Queued || s is InFlight
}

/// Some dispatched lookup has not yet delivered its outcome.
pub open spec fn has_in_flight(slots: Seq<SlotState>) -> bool {
    exists|s: int| 0 <= s < slots.len() && (#[trigger] slots[s]) is InFlight
}

/// Every envelope in the queue points at an existing slot that is `Queued`.
pub open spec fn envelopes_wf(m: BridgeModel) -> bool {
    forall|i: int| 0 <= i < m.queue.len() ==> {
        &&& (#[trigger] m.queue[i]).slot < m.slots.len()
        &&& m.slots[m.queue[i].slot as int] is Queued
    }
}

/// Slot ids grow along the queue: an envelope submitted earlier stands
/// earlier.  In particular no two envelopes share a slot.
pub open spec fn queue_increasing(m: BridgeModel) -> bool {
    forall|i: int, j: int| 0 <= i < j < m.queue.len()
        ==> (#[trigger] m.queue[i]).slot < (#[trigger] m.queue[j]).slot
}

/// Every `Queued` slot has its envelope in the queue, so cancelling the
/// queue's envelopes reaches every undispatched slot.
pub open spec fn queued_has_envelope(m: BridgeModel) -> bool {
    forall|s: int| 0 <= s < m.slots.len() && (#[trigger] m.slots[s]) is Queued
        ==> exists|i: int| 0 <= i < m.queue.len() && (#[trigger] m.queue[i]).slot == s
}

/// What each worker phase guarantees of the rest of the state.
pub open spec fn worker_phase_wf(m: BridgeModel) -> bool {
    &&& (m.worker is Starting ==> m.queue.len() == 0 && m.slots.len() == 0)
    &&& (m.worker is Draining ==> m.queue.len() == 0)
    &&& (m.worker is Stopped ==> m.queue.len() == 0
        && (forall|s: int| 0 <= s < m.slots.len() ==> resolved(#[trigger] m.slots[s])))
}

/// The bridge's invariant: established at creation, preserved by every
/// transition.
pub open spec fn bridge_inv(m: BridgeModel) -> bool {
    &&& m.slots.len() <= usize::MAX
    &&& envelopes_wf(m)
    &&& queue_increasing(m)
    &&& queued_has_envelope(m)
    &&& worker_phase_wf(m)
}

/// A submission succeeds exactly while the worker is running.  A bridge that
/// is still starting has handed out no handle, and once end-of-stream or a
/// fatal failure is seen the queue is closed; either way the submission is
/// refused rather than silently dropped.
pub open spec fn can_submit(m: BridgeModel) -> bool {
    m.worker is Running
}

/// The state after a successful submission: one fresh `Queued` slot, and one
/// new envelope at the back of the queue carrying that slot.
pub open spec fn spec_submit(m: BridgeModel, producer: u64, query: Query) -> BridgeModel {
    BridgeModel {
        worker: m.worker,
        queue: m.queue.push(Envelope { producer, slot: m.slots.len() as usize, query }),
        slots: m.slots.push(SlotState::Queued),
    }
}

/// The state after dispatching the front envelope: it leaves the queue and
/// its slot moves to `InFlight`.  Meaningful only for a non-empty queue.
pub open spec fn spec_dispatch(m: BridgeModel) -> BridgeModel {
    BridgeModel {
        worker: m.worker,
        queue: m.queue.remove(0),
        slots: m.slots.update(m.queue[0].slot as int, SlotState::InFlight),
    }
}

/// The state after the lookup service delivers `outcome` for `slot`: that one
/// slot is written, every other slot and the queue are untouched, and a
/// draining worker whose last lookup this was stops.
pub open spec fn spec_complete(m: BridgeModel, slot: int, outcome: LookupOutcome) -> BridgeModel {
    let slots = m.slots.update(slot, SlotState::Written(outcome));
    BridgeModel {
        worker: if m.worker is Draining && !has_in_flight(slots) {
            WorkerState::Stopped
        } else {
            m.worker
        },
        queue: m.queue,
        slots: slots,
    }
}

/// How end-of-stream resolves one slot: an envelope never dispatched is
/// cancelled; everything else keeps its state.
pub open spec fn cancel_queued(s: SlotState) -> SlotState {
    if s is Queued {
        SlotState::Cancelled
    } else {
        s
    }
}

/// The state after the queue reports end-of-stream: every undispatched
/// envelope's slot is cancelled, and the worker drains the lookups still in
/// flight — or stops at once if there are none.
pub open spec fn spec_end_of_stream(m: BridgeModel) -> BridgeModel {
    let slots = m.slots.map_values(|s: SlotState| cancel_queued(s));
    BridgeModel {
        worker: if has_in_flight(slots) {
            WorkerState::Draining
        } else {
            WorkerState::Stopped
        },
        queue: Seq::empty(),
        slots: slots,
    }
}

/// How a fatal stop resolves one slot: anything still owed a resolution is
/// cancelled; a slot already resolved is left exactly as it is.
pub open spec fn cancel_pending(s: SlotState) -> SlotState {
    if pending(s) {
        SlotState::Cancelled
    } else {
        s
    }
}

/// The state after an unrecoverable failure of the worker's execution
/// context: the worker is stopped, the queue is gone, and every slot not yet
/// written resolves as cancelled — no caller is left hanging.
pub open spec fn spec_stop(m: BridgeModel) -> BridgeModel {
    BridgeModel {
        worker: WorkerState::Stopped,
        queue: Seq::empty(),
        slots: m.slots.map_values(|s: SlotState| cancel_pending(s)),
    }
}

/// True exactly of a slot whose envelope still waits in the queue.
fn is_queued(s: &SlotState) -> (r: bool)
    ensures
        r == (s is Queued),
{
    match s {
        SlotState::Queued => true,
        _ => false,
    }
}

/// True exactly of a slot whose lookup has been dispatched and not answered.
fn is_in_flight(s: &SlotState) -> (r: bool)
    ensures
        r == (s is InFlight),
{
    match s {
        SlotState::InFlight => true,
        _ => false,
    }
}

/// True exactly of a slot still owed a resolution.
fn is_pending(s: &SlotState) -> (r: bool)
    ensures
        r == pending(*s),
{
    match s {
        SlotState::Queued => true,
        SlotState::InFlight => true,
        _ => false,
    }
}

/// Whether any dispatched lookup has not yet delivered its outcome.
fn any_in_flight(slots: &Vec<SlotState>) -> (r: bool)
    ensures
        r == has_in_flight(slots@),
{
    let mut i: usize = 0;
    while i < slots.len()
        invariant
            i <= slots@.len(),
            forall|k: int| 0 <= k < i ==> !((#[trigger] slots@[k]) is InFlight),
        decreases slots@.len() - i,
    {
        if is_in_flight(&slots[i]) {
            proof {
                assert(slots@[i as int] is InFlight);
            }
            return true;
        }
        i += 1;
    }
    false
}

/// The bridge: the request queue, every completion slot, and the worker's
/// phase, owned in one place.  In the running system these live on different
/// threads; the protocol they follow is exactly the one verified here.
pub struct Bridge {
    worker: WorkerState,
    queue: Vec<Envelope>,
    slots: Vec<SlotState>,
}

impl View for Bridge {
    type V = BridgeModel;

    closed spec fn view(&self) -> BridgeModel {
        BridgeModel { worker: self.worker, queue: self.queue@, slots: self.slots@ }
    }
}

impl Bridge {
    /// A bridge whose worker thread has been spawned but has not yet signaled
    /// readiness.  No handle exists yet, so nothing has been submitted.
    pub fn new() -> (r: Bridge)
        ensures
            bridge_inv(r@),
            r@.worker is Starting,
            r@.queue.len() == 0,
            r@.slots.len() == 0,
    {
        Bridge { worker: WorkerState::Starting, queue: Vec::new(), slots: Vec::new() }
    }

    /// The worker signals readiness: it has constructed its execution context
    /// and its lookup service and now accepts envelopes.
    pub fn ready(&mut self)
        requires
            bridge_inv(old(self)@),
            old(self)@.worker is Starting,
        ensures
            bridge_inv(final(self)@),
            final(self)@.worker is Running,
            final(self)@.queue == old(self)@.queue,
            final(self)@.slots == old(self)@.slots,
    {
        self.worker = WorkerState::Running;
    }

    /// The worker pulls the next envelope off the queue, if any, and marks
    /// its slot in flight.  The front of the queue — the oldest submission —
    /// always leaves first.  Returns the slot id and the query to hand to the
    /// lookup service; dispatch never waits for the lookup to finish.
    pub fn dispatch_next(&mut self) -> (r: Option<(usize, Query)>)
        requires
            bridge_inv(old(self)@),
            old(self)@.worker is Running,
        ensures
            bridge_inv(final(self)@),
            old(self)@.queue.len() == 0 ==> r is None && final(self)@ == old(self)@,
            old(self)@.queue.len() > 0 ==> {
                &&& (r matches Some(d) && d.0 == old(self)@.queue[0].slot && d.1
                    == old(self)@.queue[0].query)
                &&& final(self)@ == spec_dispatch(old(self)@)
            },
    {
        if self.queue.is_empty() {
            return None;
        }
        let env = self.queue.remove(0);
        proof {
            assert(env.slot < old(self)@.slots.len());
        }
        self.slots.set(env.slot, SlotState::InFlight);
        proof {
            let m0 = old(self)@;
            let m1 = self@;
            let d = m0.queue[0].slot as int;
            assert(m1 =~= spec_dispatch(m0));
            assert forall|i: int| 0 <= i < m1.queue.len() implies {
                &&& (#[trigger] m1.queue[i]).slot < m1.slots.len()
                &&& m1.slots[m1.queue[i].slot as int] is Queued
            } by {
                assert(m1.queue[i] == m0.queue[i + 1]);
                assert(m0.queue[0].slot < m0.queue[i + 1].slot);
            }
            assert forall|i: int, j: int| 0 <= i < j < m1.queue.len() implies (
            #[trigger] m1.queue[i]).slot < (#[trigger] m1.queue[j]).slot by {
                assert(m1.queue[i] == m0.queue[i + 1]);
                assert(m1.queue[j] == m0.queue[j + 1]);
            }
            assert forall|s: int|
                0 <= s < m1.slots.len() && (#[trigger] m1.slots[s]) is Queued
            implies exists|i: int|
                0 <= i < m1.queue.len() && (#[trigger] m1.queue[i]).slot == s by {
                assert(m0.slots[s] is Queued);
                let i = choose|i: int|
                    0 <= i < m0.queue.len() && (#[trigger] m0.queue[i]).slot == s;
                assert(i != 0);
                assert(m1.queue[i - 1].slot == s);
            }
        }
        Some((env.slot, env.query))
    }

    /// The lookup service delivered `outcome` for `slot`: the worker writes
    /// it into that slot — the one write this slot ever receives — touching
    /// no other slot.  A worker that was draining and has no lookup left in
    /// flight stops.
    pub fn complete(&mut self, slot: usize, outcome: LookupOutcome)
        requires
            bridge_inv(old(self)@),
            slot < old(self)@.slots.len(),
            old(self)@.slots[slot as int] is InFlight,
        ensures
            bridge_inv(final(self)@),
            final(self)@ == spec_complete(old(self)@, slot as int, outcome),
    {
        self.slots.set(slot, SlotState::Written(outcome));
        let stop_now = match self.worker {
            WorkerState::Draining => !any_in_flight(&self.slots),
            _ => false,
        };
        if stop_now {
            self.worker = WorkerState::Stopped;
        }
        proof {
            let m0 = old(self)@;
            let m1 = self@;
            assert(m1 =~= spec_complete(m0, slot as int, outcome));
            assert forall|i: int| 0 <= i < m1.queue.len() implies {
                &&& (#[trigger] m1.queue[i]).slot < m1.slots.len()
                &&& m1.slots[m1.queue[i].slot as int] is Queued
            } by {
                assert(m0.slots[m0.queue[i].slot as int] is Queued);
            }
            assert forall|s: int|
                0 <= s < m1.slots.len() && (#[trigger] m1.slots[s]) is Queued
            implies exists|i: int|
                0 <= i < m1.queue.len() && (#[trigger] m1.queue[i]).slot == s by {
                assert(m0.slots[s] is Queued);
            }
            if m1.worker is Stopped {
                assert(m0.worker is Draining);
                assert(m1.queue.len() == 0);
                assert forall|s: int| 0 <= s < m1.slots.len() implies resolved(
                    #[trigger] m1.slots[s],
                ) by {
                    assert(!(m1.slots[s] is InFlight));
                    if m1.slots[s] is Queued {
                        assert(m0.slots[s] is Queued);
                    }
                }
            }
        }
    }

    /// All producer ends are gone and the queue reports end-of-stream: every
    /// envelope never dispatched resolves its slot as cancelled, and the
    /// worker keeps running only as long as dispatched lookups are still owed
    /// their delivery.
    pub fn end_of_stream(&mut self)
        requires
            bridge_inv(old(self)@),
            old(self)@.worker is Running,
        ensures
            bridge_inv(final(self)@),
            final(self)@ == spec_end_of_stream(old(self)@),
    {
        self.queue.clear();
        let mut i: usize = 0;
        while i < self.slots.len()
            invariant
                i <= self.slots@.len(),
                self.slots@.len() == old(self)@.slots.len(),
                self.queue@.len() == 0,
                self.worker == old(self)@.worker,
                forall|k: int|
                    0 <= k < i ==> #[trigger] self.slots@[k] == cancel_queued(
                        old(self)@.slots[k],
                    ),
                forall|k: int|
                    i <= k < self.slots@.len() ==> #[trigger] self.slots@[k] == old(
                        self,
                    )@.slots[k],
            decreases self.slots@.len() - i,
        {
            if is_queued(&self.slots[i]) {
                self.slots.set(i, SlotState::Cancelled);
            }
            i += 1;
        }
        let draining = any_in_flight(&self.slots);
        self.worker = if draining {
            WorkerState::Draining
        } else {
            WorkerState::Stopped
        };
        proof {
            let m0 = old(self)@;
            let m1 = self@;
            assert(m1.slots =~= m0.slots.map_values(|s: SlotState| cancel_queued(s)));
            assert(m1 =~= spec_end_of_stream(m0));
            if m1.worker is Stopped {
                assert forall|s: int| 0 <= s < m1.slots.len() implies resolved(
                    #[trigger] m1.slots[s],
                ) by {
                    assert(m1.slots[s] == cancel_queued(m0.slots[s]));
                    assert(!(m1.slots[s] is InFlight));
                }
            }
        }
    }

    /// An unrecoverable failure of the worker's execution context (or an
    /// explicit teardown): the worker stops and every slot still owed a
    /// resolution — queued or in flight — resolves as cancelled, so no caller
    /// hangs.  Stopping an already-stopped bridge changes nothing.
    pub fn stop(&mut self)
        requires
            bridge_inv(old(self)@),
        ensures
            bridge_inv(final(self)@),
            final(self)@ == spec_stop(old(self)@),
    {
        self.queue.clear();
        let mut i: usize = 0;
        while i < self.slots.len()
            invariant
                i <= self.slots@.len(),
                self.slots@.len() == old(self)@.slots.len(),
                self.queue@.len() == 0,
                forall|k: int|
                    0 <= k < i ==> #[trigger] self.slots@[k] == cancel_pending(
                        old(self)@.slots[k],
                    ),
                forall|k: int|
                    i <= k < self.slots@.len() ==> #[trigger] self.slots@[k] == old(
                        self,
                    )@.slots[k],
            decreases self.slots@.len() - i,
        {
            if is_pending(&self.slots[i]) {
                self.slots.set(i, SlotState::Cancelled);
            }
            i += 1;
        }
        self.worker = WorkerState::Stopped;
        proof {
            let m0 = old(self)@;
            let m1 = self@;
            assert(m1.slots =~= m0.slots.map_values(|s: SlotState| cancel_pending(s)));
            assert(m1 =~= spec_stop(m0));
            assert forall|s: int| 0 <= s < m1.slots.len() implies resolved(
                #[trigger] m1.slots[s],
            ) by {
                assert(m1.slots[s] == cancel_pending(m0.slots[s]));
            }
        }
    }

    /// The caller consumes its slot's resolution: the one outcome the worker
    /// wrote, or the cancellation left by a shutdown.  A slot is consumed at
    /// most once, so no response is ever observed twice.
    pub fn take(&mut self, slot: usize) -> (r: AwaitResult)
        requires
            bridge_inv(old(self)@),
            slot < old(self)@.slots.len(),
            resolved(old(self)@.slots[slot as int]),
            !(old(self)@.slots[slot as int] is Consumed),
        ensures
            bridge_inv(final(self)@),
            final(self)@.worker == old(self)@.worker,
            final(self)@.queue == old(self)@.queue,
            final(self)@.slots == old(self)@.slots.update(slot as int, SlotState::Consumed),
            old(self)@.slots[slot as int] matches SlotState::Written(o) ==> r
                == AwaitResult::Completed(o),
            old(self)@.slots[slot as int] is Cancelled ==> r == AwaitResult::Cancelled,
    {
        let st = self.slots.remove(slot);
        self.slots.insert(slot, SlotState::Consumed);
        proof {
            let m0 = old(self)@;
            let m1 = self@;
            assert forall|k: int| 0 <= k < m1.slots.len() implies #[trigger] m1.slots[k]
                == m0.slots.update(slot as int, SlotState::Consumed)[k] by {
                if k < slot {
                } else if k == slot {
                } else {
                    assert(m0.slots.remove(slot as int)[k - 1] == m0.slots[k]);
                }
            }
            assert(m1.slots =~= m0.slots.update(slot as int, SlotState::Consumed));
            assert forall|i: int| 0 <= i < m1.queue.len() implies {
                &&& (#[trigger] m1.queue[i]).slot < m1.slots.len()
                &&& m1.slots[m1.queue[i].slot as int] is Queued
            } by {
                assert(m0.slots[m0.queue[i].slot as int] is Queued);
            }
            assert forall|s: int|
                0 <= s < m1.slots.len() && (#[trigger] m1.slots[s]) is Queued
            implies exists|i: int|
                0 <= i < m1.queue.len() && (#[trigger] m1.queue[i]).slot == s by {
                assert(m0.slots[s] is Queued);
            }
        }
        match st {
            SlotState::Written(o) => AwaitResult::Completed(o),
            _ => AwaitResult::Cancelled,
        }
    }
}

impl Bridge {
    /// The worker loop's phase.
    pub fn worker_state(&self) -> (r: WorkerState)
        ensures
            r == self@.worker,
    {
        self.worker
    }

    /// How many completion slots this bridge has ever created.
    pub fn slot_count(&self) -> (r: usize)
        ensures
            r == self@.slots.len(),
    {
        self.slots.len()
    }

    /// How many envelopes wait in the queue, not yet dispatched.
    pub fn queue_len(&self) -> (r: usize)
        ensures
            r == self@.queue.len(),
    {
        self.queue.len()
    }

    /// The current state of one completion slot.
    pub fn slot_state(&self, slot: usize) -> (r: &SlotState)
        requires
            slot < self@.slots.len(),
        ensures
            *r == self@.slots[slot as int],
    {
        &self.slots[slot]
    }
}

/// Folds the lookup service's answer for one query into the outcome written
/// to that query's slot: an error from the service becomes a contained,
/// failed outcome for that query alone, never a worker-level failure.
pub fn outcome_of_lookup(names: Option<Vec<String>>) -> (r: LookupOutcome)
    ensures
        names matches Some(ns) ==> r == LookupOutcome::Resolved(ns),
        names is None ==> r == LookupOutcome::LookupFailed,
{
    match names {
        Some(ns) => LookupOutcome::Resolved(ns),
        None => LookupOutcome::LookupFailed,
    }
}

/// Starts a bridge and returns it together with the first client handle.
/// The factory waits for the worker's readiness signal, so the handle it
/// returns always reaches a live queue: the bridge comes back `Running`.
pub fn create_bridge() -> (r: (Bridge, ClientHandle))
    ensures
        bridge_inv(r.0@),
        r.0@.worker is Running,
        r.0@.queue.len() == 0,
        r.0@.slots.len() == 0,
{
    let mut bridge = Bridge::new();
    bridge.ready();
    (bridge, ClientHandle { producer: 0 })
}

impl ClientHandle {
    /// Enqueues a new envelope carrying `query` and a fresh completion slot,
    /// and returns that slot's id — the consumer end the caller will await.
    /// Never blocks: the queue is unbounded.  Fails with `SubmissionFailed`
    /// exactly when the queue is closed, leaving the bridge untouched.
    pub fn submit(&self, bridge: &mut Bridge, query: Query) -> (r: Result<usize, SubmitError>)
        requires
            bridge_inv(old(bridge)@),
        ensures
            bridge_inv(final(bridge)@),
            can_submit(old(bridge)@) ==> {
                &&& r matches Ok(slot) && slot == old(bridge)@.slots.len()
                &&& final(bridge)@ == spec_submit(old(bridge)@, self.producer, query)
            },
            !can_submit(old(bridge)@) ==> {
                &&& r matches Err(e) && e is SubmissionFailed
                &&& final(bridge)@ == old(bridge)@
            },
    {
        match bridge.worker {
            WorkerState::Running => {
                let slot = bridge.slots.len();
                bridge.slots.push(SlotState::Queued);
                bridge.queue.push(Envelope { producer: self.producer, slot, query });
                proof {
                    let m0 = old(bridge)@;
                    let m1 = final(bridge)@;
                    assert(bridge.slots.len() == m1.slots.len());
                    assert(m1 =~= spec_submit(m0, self.producer, query));
                    assert forall|i: int, j: int| 0 <= i < j < m1.queue.len() implies
                        (#[trigger] m1.queue[i]).slot < (#[trigger] m1.queue[j]).slot
                    by {
                        if j < m0.queue.len() {
                            assert(m0.queue[i].slot < m0.queue[j].slot);
                        } else if i < m0.queue.len() {
                            assert(m0.queue[i].slot < m0.slots.len());
                        }
                    }
                    assert forall|i: int| 0 <= i < m1.queue.len() implies {
                        &&& (#[trigger] m1.queue[i]).slot < m1.slots.len()
                        &&& m1.slots[m1.queue[i].slot as int] is Queued
                    } by {
                        if i < m0.queue.len() {
                            assert(m1.queue[i] == m0.queue[i]);
                        }
                    }
                    assert forall|s: int|
                        0 <= s < m1.slots.len() && (#[trigger] m1.slots[s]) is Queued
                    implies exists|i: int|
                        0 <= i < m1.queue.len() && (#[trigger] m1.queue[i]).slot == s
                    by {
                        if s < m0.slots.len() {
                            let i = choose|i: int|
                                0 <= i < m0.queue.len() && (#[trigger] m0.queue[i]).slot == s;
                            assert(m1.queue[i].slot == s);
                        } else {
                            assert(m1.queue[m1.queue.len() - 1].slot == s);
                        }
                    }
                }
                Ok(slot)
            },
            _ => Err(SubmitError::SubmissionFailed),
        }
    }
}

} // verus!
