use syncdoc::backend::BackendStore;
use syncdoc::model::Op;
use syncdoc::protocol::{ChangeRequest, Dep, Patch, SyncError};
use syncdoc::replica::Replica;
use syncdoc::sync::{Event, Outcome, Source, SyncCore};

/// Processes one request through the core and delivers the combined patch
/// pair to both replicas, as the loop does.
fn run(core: &mut SyncCore, ra: &mut Replica, rb: &mut Replica, source: Source, req: ChangeRequest) {
    let pp = core.step(source, &req).unwrap();
    ra.apply_patch(&pp.for_a);
    rb.apply_patch(&pp.for_b);
}

/// Creates two replicas and drains both initialization requests.
fn setup() -> (SyncCore, Replica, Replica) {
    let mut core = SyncCore::new();
    let (mut ra, init_a) = Replica::create(1);
    let (mut rb, init_b) = Replica::create(2);
    run(&mut core, &mut ra, &mut rb, Source::A, init_a);
    run(&mut core, &mut ra, &mut rb, Source::B, init_b);
    (core, ra, rb)
}

#[test]
fn test_initialization() {
    let (core, ra, rb) = setup();
    assert_eq!(core.store_a().counter_value(), 0);
    assert_eq!(core.store_b().counter_value(), 0);
    assert_eq!(core.store_a().text_value(), Vec::<char>::new());
    assert_eq!(core.store_b().text_value(), Vec::<char>::new());
    assert_eq!(ra.counter_value(), 0);
    assert_eq!(rb.counter_value(), 0);
}

#[test]
fn test_order_preservation() {
    let (mut core, mut ra, mut rb) = setup();
    let r1 = ra.local_edit(Op::Insert { idx: 0, ch: 'a' }).unwrap();
    run(&mut core, &mut ra, &mut rb, Source::A, r1);
    let r2 = ra.local_edit(Op::Insert { idx: 1, ch: 'b' }).unwrap();
    run(&mut core, &mut ra, &mut rb, Source::A, r2);
    let r3 = ra.local_edit(Op::Insert { idx: 2, ch: 'c' }).unwrap();
    run(&mut core, &mut ra, &mut rb, Source::A, r3);
    assert_eq!(core.store_a().text_value(), vec!['a', 'b', 'c']);
    assert_eq!(core.store_b().text_value(), vec!['a', 'b', 'c']);
    assert_eq!(ra.text_value(), vec!['a', 'b', 'c']);
    assert_eq!(rb.text_value(), vec!['a', 'b', 'c']);
}

#[test]
fn test_increment_correctness() {
    let (mut core, mut ra, mut rb) = setup();
    let r1 = ra.increment().unwrap();
    run(&mut core, &mut ra, &mut rb, Source::A, r1);
    let r2 = rb.increment().unwrap();
    run(&mut core, &mut ra, &mut rb, Source::B, r2);
    let r3 = ra.increment().unwrap();
    run(&mut core, &mut ra, &mut rb, Source::A, r3);
    assert_eq!(core.store_a().counter_value(), 3);
    assert_eq!(core.store_b().counter_value(), 3);
    assert_eq!(ra.counter_value(), 3);
    assert_eq!(rb.counter_value(), 3);
}

#[test]
fn test_echo_suppression() {
    let (mut core, mut ra, mut rb) = setup();
    let req = ra.local_edit(Op::Insert { idx: 0, ch: 'x' }).unwrap();
    let pp = core.step(Source::A, &req).unwrap();
    // The patch for the originating replica is an echo: merged, not rendered.
    assert!(ra.apply_patch(&pp.for_a).is_none());
    // The peer's patch is tagged with the originating actor and is rendered.
    assert_eq!(pp.for_b.actor, ra.actor_id());
    let rendered = rb.apply_patch(&pp.for_b).unwrap();
    assert_eq!(rendered, vec!['x']);
    // A patch tagged with the replica's own identifier is never rendered.
    let own = Patch { actor: ra.actor_id(), counter: 7, text: vec!['q'] };
    assert!(ra.apply_patch(&own).is_none());
    let foreign = Patch { actor: 99, counter: 7, text: vec!['q'] };
    assert!(ra.apply_patch(&foreign).is_some());
}

#[test]
fn test_convergence() {
    let (mut core, mut ra, mut rb) = setup();
    let r1 = ra.local_edit(Op::Insert { idx: 0, ch: 'h' }).unwrap();
    run(&mut core, &mut ra, &mut rb, Source::A, r1);
    let r2 = rb.increment().unwrap();
    run(&mut core, &mut ra, &mut rb, Source::B, r2);
    let r3 = ra.local_edit(Op::Insert { idx: 1, ch: 'i' }).unwrap();
    run(&mut core, &mut ra, &mut rb, Source::A, r3);
    let r4 = rb.local_edit(Op::Insert { idx: 2, ch: '!' }).unwrap();
    run(&mut core, &mut ra, &mut rb, Source::B, r4);
    let r5 = ra.local_edit(Op::Delete { idx: 0 }).unwrap();
    run(&mut core, &mut ra, &mut rb, Source::A, r5);
    let r6 = rb.increment().unwrap();
    run(&mut core, &mut ra, &mut rb, Source::B, r6);
    assert_eq!(core.store_a().counter_value(), core.store_b().counter_value());
    assert_eq!(core.store_a().text_value(), core.store_b().text_value());
    assert_eq!(core.store_a().text_value(), vec!['i', '!']);
    assert_eq!(core.store_a().counter_value(), 2);
    assert_eq!(ra.text_value(), rb.text_value());
    assert_eq!(ra.counter_value(), rb.counter_value());
}

#[test]
fn test_end_to_end() {
    let (mut core, mut ra, mut rb) = setup();
    let r1 = ra.local_edit(Op::Insert { idx: 0, ch: 'a' }).unwrap();
    run(&mut core, &mut ra, &mut rb, Source::A, r1);
    let r2 = rb.increment().unwrap();
    run(&mut core, &mut ra, &mut rb, Source::B, r2);
    let r3 = ra.local_edit(Op::Insert { idx: 1, ch: 'b' }).unwrap();
    run(&mut core, &mut ra, &mut rb, Source::A, r3);
    let r4 = rb.increment().unwrap();
    run(&mut core, &mut ra, &mut rb, Source::B, r4);
    let r5 = ra.local_edit(Op::Insert { idx: 2, ch: 'c' }).unwrap();
    run(&mut core, &mut ra, &mut rb, Source::A, r5);
    for store in [core.store_a(), core.store_b()] {
        assert_eq!(store.counter_value(), 2);
        assert_eq!(store.text_value(), vec!['a', 'b', 'c']);
    }
    assert_eq!(ra.counter_value(), 2);
    assert_eq!(rb.counter_value(), 2);
    assert_eq!(ra.text_value(), vec!['a', 'b', 'c']);
    assert_eq!(rb.text_value(), vec!['a', 'b', 'c']);
}

#[test]
fn test_request_rejected() {
    let (mut core, mut ra, mut rb) = setup();
    // Replaying the already-consumed initialization request is rejected:
    // its sequence number is no longer the next one expected of actor 1.
    let replay = ChangeRequest { actor: 1, seq: 1, ops: vec![Op::SetCounter(0), Op::SetText] };
    let r = core.step(Source::A, &replay);
    assert!(matches!(r, Err(SyncError::RequestRejected)));
    // Both backends are untouched and the core still accepts valid requests.
    assert_eq!(core.store_a().counter_value(), 0);
    assert_eq!(core.store_b().counter_value(), 0);
    let ok = ra.increment().unwrap();
    run(&mut core, &mut ra, &mut rb, Source::A, ok);
    assert_eq!(core.store_b().counter_value(), 1);
}

#[test]
fn test_stale_request_rejected() {
    let mut core = SyncCore::new();
    let (mut ra, _init_a) = Replica::create(1);
    // The initialization request was never sent, so the next edit's request
    // references an unobserved causal dependency and is rejected.
    let req = ra.increment().unwrap();
    let r = core.step(Source::A, &req);
    assert!(matches!(r, Err(SyncError::RequestRejected)));
}

#[test]
fn test_local_edit_invalid() {
    let (mut ra, _init) = Replica::create(1);
    assert!(ra.local_edit(Op::Delete { idx: 0 }).is_none());
    assert!(ra.local_edit(Op::Insert { idx: 5, ch: 'x' }).is_none());
    assert_eq!(ra.seq_value(), 1);
    assert_eq!(ra.text_value(), Vec::<char>::new());
}

#[test]
fn test_shutdown() {
    let mut core = SyncCore::new();
    let (_ra, init_a) = Replica::create(1);
    let (_rb, init_b) = Replica::create(2);
    // Requests submitted before shutdown are applied and produce patches.
    let out = core.on_event(Event::Request { source: Source::A, req: init_a });
    assert!(matches!(out, Outcome::Deliver { .. }));
    let out = core.on_event(Event::Request { source: Source::B, req: init_b });
    assert!(matches!(out, Outcome::Deliver { .. }));
    let counter_before = core.store_a().counter_value();
    let text_before = core.store_a().text_value();
    // Shutdown stops the loop cleanly and applies nothing.
    let out = core.on_event(Event::Shutdown);
    assert!(matches!(out, Outcome::Stop));
    assert_eq!(core.store_a().counter_value(), counter_before);
    assert_eq!(core.store_a().text_value(), text_before);
}

#[test]
fn test_on_event_rejection_routes_to_origin() {
    let mut core = SyncCore::new();
    let bad = ChangeRequest { actor: 2, seq: 9, ops: vec![Op::Increment] };
    let out = core.on_event(Event::Request { source: Source::B, req: bad });
    assert!(matches!(out, Outcome::Rejected { source: Source::B }));
}

#[test]
fn test_changes_since() {
    let mut store = BackendStore::new();
    let init = ChangeRequest { actor: 1, seq: 1, ops: vec![Op::SetCounter(0), Op::SetText] };
    store.apply_local_change(&init).unwrap();
    let edit = ChangeRequest { actor: 1, seq: 2, ops: vec![Op::Insert { idx: 0, ch: 'a' }] };
    store.apply_local_change(&edit).unwrap();
    let all = store.changes_since(&Vec::new());
    assert_eq!(all.len(), 2);
    assert_eq!((all[0].actor, all[0].seq), (1, 1));
    assert_eq!((all[1].actor, all[1].seq), (1, 2));
    let later = store.changes_since(&vec![Dep { actor: 1, seq: 1 }]);
    assert_eq!(later.len(), 1);
    assert_eq!((later[0].actor, later[0].seq), (1, 2));
    let none = store.changes_since(&vec![Dep { actor: 1, seq: 2 }]);
    assert!(none.is_empty());
}

#[test]
fn test_remote_merge_is_idempotent() {
    let mut src = BackendStore::new();
    let init = ChangeRequest { actor: 1, seq: 1, ops: vec![Op::SetCounter(0), Op::SetText] };
    src.apply_local_change(&init).unwrap();
    let edit = ChangeRequest { actor: 1, seq: 2, ops: vec![Op::Increment] };
    src.apply_local_change(&edit).unwrap();
    let changes = src.changes_since(&Vec::new());
    let mut dst = BackendStore::new();
    let p1 = dst.apply_remote_changes(1, &changes);
    assert_eq!(p1.actor, 1);
    assert_eq!(dst.counter_value(), 1);
    // Replaying the same history changes nothing.
    let p2 = dst.apply_remote_changes(1, &changes);
    assert_eq!(p2.counter, 1);
    assert_eq!(dst.counter_value(), 1);
    assert_eq!(dst.changes_since(&Vec::new()).len(), 2);
}

#[test]
fn test_patch_carries_state() {
    let (mut core, mut ra, _rb) = setup();
    let req = ra.local_edit(Op::Insert { idx: 0, ch: 'a' }).unwrap();
    let pp = core.step(Source::A, &req).unwrap();
    // Both patches are tagged with the actor whose edit caused them.
    assert_eq!(pp.for_a.actor, 1);
    assert_eq!(pp.for_b.actor, 1);
    assert_eq!(pp.for_a.text, vec!['a']);
    assert_eq!(pp.for_b.text, vec!['a']);
    assert_eq!(pp.for_a.counter, 0);
}
