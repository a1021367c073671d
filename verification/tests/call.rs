use teletypewriter_pipes::call::{
    keeps_worker_after, CallAction, CallEvent, CallStage, ErrorPoll, HandleCall, Readiness, Side,
};

fn run(side: Side, attached: bool, events: Vec<CallEvent>) -> Vec<CallAction> {
    let (mut call, first) = HandleCall::begin(side, attached);
    let mut actions = vec![first];
    for e in events {
        assert!(call.accepts(&e));
        let (next, action) = call.step(e);
        call = next;
        actions.push(action);
    }
    assert_eq!(call.stage, CallStage::Done);
    actions
}

#[test]
fn call_without_worker_is_a_broken_pipe() {
    let actions = run(Side::Read, false, vec![]);
    assert_eq!(actions, vec![CallAction::BrokenPipe { join_worker: false, message: None }]);
    let actions = run(Side::Write, false, vec![]);
    assert_eq!(actions, vec![CallAction::BrokenPipe { join_worker: false, message: None }]);
}

#[test]
fn worker_error_joins_worker_and_carries_its_text() {
    let actions = run(
        Side::Read,
        true,
        vec![CallEvent::ErrorsPolled(ErrorPoll::Message("pipe gone".to_string()))],
    );
    assert_eq!(
        actions,
        vec![
            CallAction::PollErrors,
            CallAction::BrokenPipe { join_worker: true, message: Some("pipe gone".to_string()) },
        ]
    );
}

#[test]
fn disconnected_worker_is_a_broken_pipe_without_text() {
    let actions = run(Side::Write, true, vec![CallEvent::ErrorsPolled(ErrorPoll::Disconnected)]);
    assert_eq!(
        actions,
        vec![CallAction::PollErrors, CallAction::BrokenPipe { join_worker: false, message: None }]
    );
}

#[test]
fn read_that_leaves_bytes_keeps_readiness() {
    let actions = run(
        Side::Read,
        true,
        vec![
            CallEvent::ErrorsPolled(ErrorPoll::Quiet),
            CallEvent::Transferred { nbytes: 12, ring_blocked: false },
            CallEvent::Notified,
        ],
    );
    assert_eq!(
        actions,
        vec![
            CallAction::PollErrors,
            CallAction::Transfer,
            CallAction::NotifyWorker,
            CallAction::Return(12),
        ]
    );
}

#[test]
fn read_that_drains_ring_clears_readiness() {
    let actions = run(
        Side::Read,
        true,
        vec![
            CallEvent::ErrorsPolled(ErrorPoll::Quiet),
            CallEvent::Transferred { nbytes: 3, ring_blocked: true },
            CallEvent::ReadinessSet { ok: true },
            CallEvent::Rechecked { ring_blocked: true },
            CallEvent::Notified,
        ],
    );
    assert_eq!(
        actions,
        vec![
            CallAction::PollErrors,
            CallAction::Transfer,
            CallAction::SetReadiness(Readiness::Empty),
            CallAction::Recheck,
            CallAction::NotifyWorker,
            CallAction::Return(3),
        ]
    );
}

#[test]
fn read_restores_readiness_when_bytes_arrived_meanwhile() {
    let actions = run(
        Side::Read,
        true,
        vec![
            CallEvent::ErrorsPolled(ErrorPoll::Quiet),
            CallEvent::Transferred { nbytes: 0, ring_blocked: true },
            CallEvent::ReadinessSet { ok: true },
            CallEvent::Rechecked { ring_blocked: false },
            CallEvent::ReadinessSet { ok: true },
            CallEvent::Notified,
        ],
    );
    assert_eq!(
        actions,
        vec![
            CallAction::PollErrors,
            CallAction::Transfer,
            CallAction::SetReadiness(Readiness::Empty),
            CallAction::Recheck,
            CallAction::SetReadiness(Readiness::Readable),
            CallAction::NotifyWorker,
            CallAction::Return(0),
        ]
    );
}

#[test]
fn write_restores_writable_when_room_appeared_meanwhile() {
    let actions = run(
        Side::Write,
        true,
        vec![
            CallEvent::ErrorsPolled(ErrorPoll::Quiet),
            CallEvent::Transferred { nbytes: 65535, ring_blocked: true },
            CallEvent::ReadinessSet { ok: true },
            CallEvent::Rechecked { ring_blocked: false },
            CallEvent::ReadinessSet { ok: true },
            CallEvent::Notified,
        ],
    );
    assert_eq!(actions[4], CallAction::SetReadiness(Readiness::Writable));
    assert_eq!(actions[6], CallAction::Return(65535));
}

#[test]
fn failed_readiness_change_passes_the_error_on() {
    let actions = run(
        Side::Write,
        true,
        vec![
            CallEvent::ErrorsPolled(ErrorPoll::Quiet),
            CallEvent::Transferred { nbytes: 1, ring_blocked: true },
            CallEvent::ReadinessSet { ok: false },
        ],
    );
    assert_eq!(actions.last(), Some(&CallAction::PassIoError));
    let actions = run(
        Side::Read,
        true,
        vec![
            CallEvent::ErrorsPolled(ErrorPoll::Quiet),
            CallEvent::Transferred { nbytes: 1, ring_blocked: true },
            CallEvent::ReadinessSet { ok: true },
            CallEvent::Rechecked { ring_blocked: false },
            CallEvent::ReadinessSet { ok: false },
        ],
    );
    assert_eq!(actions.last(), Some(&CallAction::PassIoError));
    assert!(!actions.contains(&CallAction::NotifyWorker));
}

#[test]
fn call_refuses_events_out_of_turn() {
    let (call, _) = HandleCall::begin(Side::Read, true);
    assert!(!call.accepts(&CallEvent::Notified));
    assert!(!call.accepts(&CallEvent::Transferred { nbytes: 1, ring_blocked: false }));
    assert!(call.accepts(&CallEvent::ErrorsPolled(ErrorPoll::Quiet)));
    let (done, _) = HandleCall::begin(Side::Read, false);
    assert!(!done.accepts(&CallEvent::ErrorsPolled(ErrorPoll::Quiet)));
    assert!(!done.accepts(&CallEvent::Notified));
}

#[test]
fn finished_call_expects_nothing_more() {
    let (call, _) = HandleCall::begin(Side::Write, true);
    let (call, _) = call.step(CallEvent::ErrorsPolled(ErrorPoll::Quiet));
    let (call, _) = call.step(CallEvent::Transferred { nbytes: 2, ring_blocked: false });
    let (call, action) = call.step(CallEvent::Notified);
    assert_eq!(action, CallAction::Return(2));
    assert_eq!(call.stage, CallStage::Done);
    assert!(!call.accepts(&CallEvent::Notified));
    assert!(!call.accepts(&CallEvent::ReadinessSet { ok: true }));
    assert!(!call.accepts(&CallEvent::Rechecked { ring_blocked: true }));
    assert!(!call.accepts(&CallEvent::ErrorsPolled(ErrorPoll::Quiet)));
}

#[test]
fn broken_handle_stays_broken() {
    let actions = run(
        Side::Read,
        true,
        vec![CallEvent::ErrorsPolled(ErrorPoll::Message("gone".to_string()))],
    );
    let last = actions.last().unwrap();
    assert!(!keeps_worker_after(true, last));
    for side in [Side::Read, Side::Write] {
        let (call, action) = HandleCall::begin(side, false);
        assert_eq!(action, CallAction::BrokenPipe { join_worker: false, message: None });
        assert!(!call.accepts(&CallEvent::ErrorsPolled(ErrorPoll::Quiet)));
        assert!(!keeps_worker_after(false, &action));
    }
    let disconnected = CallAction::BrokenPipe { join_worker: false, message: None };
    assert!(keeps_worker_after(true, &disconnected));
    assert!(keeps_worker_after(true, &CallAction::Return(3)));
}
