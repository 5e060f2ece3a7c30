use lookup_bridge::WorkerState;
use lookup_bridge::bridge::AwaitResult;
use lookup_bridge::bridge::LookupOutcome;
use lookup_bridge::bridge::Query;
use lookup_bridge::bridge::SlotState;
use lookup_bridge::bridge::SubmitError;
use lookup_bridge::bridge::create_bridge;
use lookup_bridge::bridge::outcome_of_lookup;

fn q(bytes: &[u8]) -> Query {
    Query { bytes: bytes.to_vec() }
}

fn names(ns: &[&str]) -> Vec<String> {
    ns.iter().map(|n| n.to_string()).collect()
}

#[test]
fn zero_submissions_stop_clean() {
    let (mut bridge, _handle) = create_bridge();
    assert_eq!(bridge.worker_state(), WorkerState::Running);
    bridge.end_of_stream();
    assert_eq!(bridge.worker_state(), WorkerState::Stopped);
    assert_eq!(bridge.slot_count(), 0);
    assert_eq!(bridge.queue_len(), 0);
    bridge.stop();
    assert_eq!(bridge.worker_state(), WorkerState::Stopped);
}

#[test]
fn each_query_yields_exactly_one_outcome() {
    let (mut bridge, handle) = create_bridge();
    let s0 = handle.submit(&mut bridge, q(&[1])).unwrap();
    let s1 = handle.submit(&mut bridge, q(&[2])).unwrap();
    let s2 = handle.submit(&mut bridge, q(&[3])).unwrap();
    assert_eq!((s0, s1, s2), (0, 1, 2));

    let (d0, _) = bridge.dispatch_next().unwrap();
    let (d1, _) = bridge.dispatch_next().unwrap();
    bridge.complete(d0, LookupOutcome::Resolved(names(&["a"])));
    bridge.complete(d1, LookupOutcome::LookupFailed);
    // s2 never dispatched; the worker dies.
    bridge.stop();

    // Every slot resolves to exactly one of outcome / failure / cancellation.
    assert_eq!(
        bridge.take(s0),
        AwaitResult::Completed(LookupOutcome::Resolved(names(&["a"])))
    );
    assert_eq!(
        bridge.take(s1),
        AwaitResult::Completed(LookupOutcome::LookupFailed)
    );
    assert_eq!(bridge.take(s2), AwaitResult::Cancelled);
    // ... and each is consumed exactly once.
    assert_eq!(bridge.slot_state(s0), &SlotState::Consumed);
    assert_eq!(bridge.slot_state(s1), &SlotState::Consumed);
    assert_eq!(bridge.slot_state(s2), &SlotState::Consumed);
}

#[test]
fn fifo_dispatch_from_one_handle() {
    let (mut bridge, handle) = create_bridge();
    let s0 = handle.submit(&mut bridge, q(&[10])).unwrap();
    let s1 = handle.submit(&mut bridge, q(&[20])).unwrap();
    let s2 = handle.submit(&mut bridge, q(&[30])).unwrap();

    // Dispatch observes exactly the submission order.
    assert_eq!(bridge.dispatch_next(), Some((s0, q(&[10]))));
    assert_eq!(bridge.dispatch_next(), Some((s1, q(&[20]))));
    assert_eq!(bridge.dispatch_next(), Some((s2, q(&[30]))));
    assert_eq!(bridge.dispatch_next(), None);
}

#[test]
fn stop_cancels_pending_and_refuses_submissions() {
    let (mut bridge, handle) = create_bridge();
    let in_flight = handle.submit(&mut bridge, q(&[1])).unwrap();
    let queued = handle.submit(&mut bridge, q(&[2])).unwrap();
    bridge.dispatch_next().unwrap();

    bridge.stop();
    assert_eq!(bridge.worker_state(), WorkerState::Stopped);
    assert_eq!(bridge.slot_state(in_flight), &SlotState::Cancelled);
    assert_eq!(bridge.slot_state(queued), &SlotState::Cancelled);
    assert_eq!(bridge.take(in_flight), AwaitResult::Cancelled);
    assert_eq!(bridge.take(queued), AwaitResult::Cancelled);

    // No submission succeeds against the stopped bridge.
    assert_eq!(
        handle.submit(&mut bridge, q(&[3])),
        Err(SubmitError::SubmissionFailed)
    );
    assert_eq!(bridge.slot_count(), 2);
}

#[test]
fn clones_submit_identically() {
    let (mut bridge, handle) = create_bridge();
    let clone_a = handle.clone();
    let clone_b = handle.clone();

    let s1 = clone_a.submit(&mut bridge, q(&[1])).unwrap();
    let s2 = clone_b.submit(&mut bridge, q(&[2])).unwrap();
    assert_ne!(s1, s2);

    let (d1, q1) = bridge.dispatch_next().unwrap();
    let (d2, q2) = bridge.dispatch_next().unwrap();
    assert_eq!((d1, q1), (s1, q(&[1])));
    assert_eq!((d2, q2), (s2, q(&[2])));

    // Both receive distinct, correctly correlated responses, even completed
    // out of submission order.
    bridge.complete(d2, LookupOutcome::Resolved(names(&["two"])));
    bridge.complete(d1, LookupOutcome::Resolved(names(&["one"])));
    assert_eq!(
        bridge.take(s1),
        AwaitResult::Completed(LookupOutcome::Resolved(names(&["one"])))
    );
    assert_eq!(
        bridge.take(s2),
        AwaitResult::Completed(LookupOutcome::Resolved(names(&["two"])))
    );
}

#[test]
fn failure_of_one_query_leaves_another_untouched() {
    let (mut bridge, handle) = create_bridge();
    let s1 = handle.submit(&mut bridge, q(&[1])).unwrap();
    let s2 = handle.submit(&mut bridge, q(&[2])).unwrap();
    bridge.dispatch_next().unwrap();
    bridge.dispatch_next().unwrap();

    bridge.complete(s1, LookupOutcome::LookupFailed);
    assert_eq!(bridge.slot_state(s2), &SlotState::InFlight);
    assert_eq!(bridge.worker_state(), WorkerState::Running);

    bridge.complete(s2, LookupOutcome::Resolved(names(&["r"])));
    assert_eq!(
        bridge.take(s1),
        AwaitResult::Completed(LookupOutcome::LookupFailed)
    );
    assert_eq!(
        bridge.take(s2),
        AwaitResult::Completed(LookupOutcome::Resolved(names(&["r"])))
    );
}

#[test]
fn failure_isolation_holds_in_either_completion_order() {
    let (mut bridge, handle) = create_bridge();
    let s1 = handle.submit(&mut bridge, q(&[1])).unwrap();
    let s2 = handle.submit(&mut bridge, q(&[2])).unwrap();
    bridge.dispatch_next().unwrap();
    bridge.dispatch_next().unwrap();

    bridge.complete(s2, LookupOutcome::Resolved(names(&["r"])));
    assert_eq!(bridge.slot_state(s1), &SlotState::InFlight);
    bridge.complete(s1, LookupOutcome::LookupFailed);

    assert_eq!(
        bridge.take(s1),
        AwaitResult::Completed(LookupOutcome::LookupFailed)
    );
    assert_eq!(
        bridge.take(s2),
        AwaitResult::Completed(LookupOutcome::Resolved(names(&["r"])))
    );
}

#[test]
fn shutdown_is_idempotent_and_never_double_resolves() {
    let (mut bridge, handle) = create_bridge();
    let s0 = handle.submit(&mut bridge, q(&[1])).unwrap();
    bridge.dispatch_next().unwrap();
    bridge.complete(s0, LookupOutcome::Resolved(names(&["kept"])));

    bridge.stop();
    // The written outcome survives the stop...
    assert_eq!(
        bridge.slot_state(s0),
        &SlotState::Written(LookupOutcome::Resolved(names(&["kept"])))
    );
    // ...and a second stop changes nothing.
    bridge.stop();
    assert_eq!(bridge.worker_state(), WorkerState::Stopped);
    assert_eq!(
        bridge.take(s0),
        AwaitResult::Completed(LookupOutcome::Resolved(names(&["kept"])))
    );
    bridge.stop();
    assert_eq!(bridge.slot_state(s0), &SlotState::Consumed);
}

#[test]
fn end_of_stream_drains_in_flight_lookups() {
    let (mut bridge, handle) = create_bridge();
    let in_flight = handle.submit(&mut bridge, q(&[1])).unwrap();
    let queued = handle.submit(&mut bridge, q(&[2])).unwrap();
    bridge.dispatch_next().unwrap();

    bridge.end_of_stream();
    // The undispatched envelope is cancelled; the dispatched lookup drains.
    assert_eq!(bridge.worker_state(), WorkerState::Draining);
    assert_eq!(bridge.slot_state(queued), &SlotState::Cancelled);
    assert_eq!(bridge.slot_state(in_flight), &SlotState::InFlight);

    bridge.complete(in_flight, LookupOutcome::Resolved(names(&["late"])));
    assert_eq!(bridge.worker_state(), WorkerState::Stopped);
    assert_eq!(
        bridge.take(in_flight),
        AwaitResult::Completed(LookupOutcome::Resolved(names(&["late"])))
    );
    assert_eq!(bridge.take(queued), AwaitResult::Cancelled);
}

#[test]
fn lookup_errors_become_contained_failures() {
    assert_eq!(
        outcome_of_lookup(Some(names(&["host-a", "host-b"]))),
        LookupOutcome::Resolved(names(&["host-a", "host-b"]))
    );
    assert_eq!(outcome_of_lookup(None), LookupOutcome::LookupFailed);
}

#[test]
fn submissions_queue_without_bound_before_dispatch() {
    let (mut bridge, handle) = create_bridge();
    for i in 0..100u8 {
        let s = handle.submit(&mut bridge, q(&[i])).unwrap();
        assert_eq!(s, i as usize);
    }
    assert_eq!(bridge.queue_len(), 100);
    for i in 0..100u8 {
        let (slot, query) = bridge.dispatch_next().unwrap();
        assert_eq!(slot, i as usize);
        assert_eq!(query, q(&[i]));
    }
    assert_eq!(bridge.queue_len(), 0);
}
