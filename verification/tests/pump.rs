use teletypewriter_pipes::call::Readiness;
use teletypewriter_pipes::pump::{
    inbound_must_wait, outbound_must_wait, InboundStage, OutboundStage, PumpAction, PumpEvent,
};
use teletypewriter_pipes::ring::SpscBuffer;

fn inbound(events: Vec<PumpEvent>) -> (InboundStage, Vec<PumpAction>) {
    let (mut stage, first) = InboundStage::begin();
    let mut actions = vec![first];
    for e in events {
        assert!(stage.accepts(&e));
        let (next, action) = stage.step(e);
        stage = next;
        actions.push(action);
    }
    (stage, actions)
}

fn outbound(events: Vec<PumpEvent>) -> (OutboundStage, Vec<PumpAction>) {
    let (mut stage, first) = OutboundStage::begin();
    let mut actions = vec![first];
    for e in events {
        assert!(stage.accepts(&e));
        let (next, action) = stage.step(e);
        stage = next;
        actions.push(action);
    }
    (stage, actions)
}

#[test]
fn inbound_worker_stops_when_asked() {
    let (stage, actions) = inbound(vec![PumpEvent::DoneFlag { done: true }]);
    assert_eq!(stage, InboundStage::Exited);
    assert_eq!(actions, vec![PumpAction::CheckDone, PumpAction::Exit]);
}

#[test]
fn inbound_worker_reports_pipe_error() {
    let (stage, actions) = inbound(vec![
        PumpEvent::DoneFlag { done: false },
        PumpEvent::PipeRead { result: Err("broken".to_string()) },
    ]);
    assert_eq!(stage, InboundStage::Exited);
    assert_eq!(actions.last(), Some(&PumpAction::Report("broken".to_string())));
}

#[test]
fn inbound_worker_stores_a_chunk_in_pieces() {
    let (stage, actions) = inbound(vec![
        PumpEvent::DoneFlag { done: false },
        PumpEvent::PipeRead { result: Ok(10) },
        PumpEvent::Woken { done: false },
        PumpEvent::Stored { count: 4 },
        PumpEvent::ReadinessQueried { set: false },
        PumpEvent::ReadinessSet { error: None },
        PumpEvent::Woken { done: false },
        PumpEvent::Stored { count: 6 },
        PumpEvent::ReadinessQueried { set: true },
    ]);
    assert_eq!(stage, InboundStage::Idle);
    assert_eq!(
        actions,
        vec![
            PumpAction::CheckDone,
            PumpAction::ReadPipe,
            PumpAction::WaitForRoom,
            PumpAction::Store { from: 0, to: 10 },
            PumpAction::QueryReadiness,
            PumpAction::SetReadiness(Readiness::Readable),
            PumpAction::WaitForRoom,
            PumpAction::Store { from: 4, to: 10 },
            PumpAction::QueryReadiness,
            PumpAction::CheckDone,
        ]
    );
}

#[test]
fn inbound_worker_goes_back_to_pipe_on_empty_read() {
    let (stage, actions) =
        inbound(vec![PumpEvent::DoneFlag { done: false }, PumpEvent::PipeRead { result: Ok(0) }]);
    assert_eq!(stage, InboundStage::Idle);
    assert_eq!(actions.last(), Some(&PumpAction::CheckDone));
}

#[test]
fn inbound_worker_stops_while_waiting_for_room() {
    let (stage, actions) = inbound(vec![
        PumpEvent::DoneFlag { done: false },
        PumpEvent::PipeRead { result: Ok(5) },
        PumpEvent::Woken { done: true },
    ]);
    assert_eq!(stage, InboundStage::Exited);
    assert_eq!(actions.last(), Some(&PumpAction::Exit));
}

#[test]
fn inbound_worker_reports_readiness_error() {
    let (stage, actions) = inbound(vec![
        PumpEvent::DoneFlag { done: false },
        PumpEvent::PipeRead { result: Ok(5) },
        PumpEvent::Woken { done: false },
        PumpEvent::Stored { count: 5 },
        PumpEvent::ReadinessQueried { set: false },
        PumpEvent::ReadinessSet { error: Some("poll gone".to_string()) },
    ]);
    assert_eq!(stage, InboundStage::Exited);
    assert_eq!(actions.last(), Some(&PumpAction::Report("poll gone".to_string())));
}

#[test]
fn inbound_worker_refuses_inconsistent_counts() {
    let (stage, _) = inbound(vec![
        PumpEvent::DoneFlag { done: false },
        PumpEvent::PipeRead { result: Ok(5) },
        PumpEvent::Woken { done: false },
    ]);
    assert!(!stage.accepts(&PumpEvent::Stored { count: 6 }));
    assert!(stage.accepts(&PumpEvent::Stored { count: 5 }));
    let (reading, _) = inbound(vec![PumpEvent::DoneFlag { done: false }]);
    assert!(!reading.accepts(&PumpEvent::PipeRead { result: Ok(65536) }));
    assert!(reading.accepts(&PumpEvent::PipeRead { result: Ok(65535) }));
}

#[test]
fn outbound_worker_announces_writable_first() {
    let (stage, actions) = outbound(vec![]);
    assert_eq!(stage, OutboundStage::Announcing);
    assert_eq!(actions, vec![PumpAction::SetReadiness(Readiness::Writable)]);
    let (stage, actions) =
        outbound(vec![PumpEvent::ReadinessSet { error: Some("no poll".to_string()) }]);
    assert_eq!(stage, OutboundStage::Exited);
    assert_eq!(actions.last(), Some(&PumpAction::Report("no poll".to_string())));
}

#[test]
fn outbound_worker_flushes_a_chunk_in_pieces() {
    let (stage, actions) = outbound(vec![
        PumpEvent::ReadinessSet { error: None },
        PumpEvent::DoneFlag { done: false },
        PumpEvent::Woken { done: false },
        PumpEvent::Taken { count: 9 },
        PumpEvent::ReadinessQueried { set: false },
        PumpEvent::ReadinessSet { error: None },
        PumpEvent::PipeWrote { result: Ok(4) },
        PumpEvent::PipeWrote { result: Ok(0) },
        PumpEvent::PipeWrote { result: Ok(5) },
    ]);
    assert_eq!(stage, OutboundStage::Idle);
    assert_eq!(
        actions,
        vec![
            PumpAction::SetReadiness(Readiness::Writable),
            PumpAction::CheckDone,
            PumpAction::WaitForData,
            PumpAction::Take,
            PumpAction::QueryReadiness,
            PumpAction::SetReadiness(Readiness::Writable),
            PumpAction::WritePipe { from: 0, to: 9 },
            PumpAction::WritePipe { from: 4, to: 9 },
            PumpAction::WritePipe { from: 4, to: 9 },
            PumpAction::CheckDone,
        ]
    );
}

#[test]
fn outbound_worker_reports_pipe_error_and_stops_when_asked() {
    let (stage, actions) = outbound(vec![
        PumpEvent::ReadinessSet { error: None },
        PumpEvent::DoneFlag { done: false },
        PumpEvent::Woken { done: false },
        PumpEvent::Taken { count: 2 },
        PumpEvent::ReadinessQueried { set: true },
        PumpEvent::PipeWrote { result: Err("closed".to_string()) },
    ]);
    assert_eq!(stage, OutboundStage::Exited);
    assert_eq!(actions.last(), Some(&PumpAction::Report("closed".to_string())));
    let (stage, actions) = outbound(vec![
        PumpEvent::ReadinessSet { error: None },
        PumpEvent::DoneFlag { done: false },
        PumpEvent::Woken { done: true },
    ]);
    assert_eq!(stage, OutboundStage::Exited);
    assert_eq!(actions.last(), Some(&PumpAction::Exit));
}

#[test]
fn outbound_worker_with_nothing_taken_goes_back_to_the_top() {
    let (stage, actions) = outbound(vec![
        PumpEvent::ReadinessSet { error: None },
        PumpEvent::DoneFlag { done: false },
        PumpEvent::Woken { done: false },
        PumpEvent::Taken { count: 0 },
        PumpEvent::ReadinessQueried { set: true },
    ]);
    assert_eq!(stage, OutboundStage::Idle);
    assert_eq!(actions.last(), Some(&PumpAction::CheckDone));
}

#[test]
fn workers_wait_only_on_a_blocked_ring_without_stop() {
    let mut ring = SpscBuffer::new(2);
    assert!(outbound_must_wait(&ring, false));
    assert!(!outbound_must_wait(&ring, true));
    assert!(!inbound_must_wait(&ring, false));
    ring.write_from_slice(&[1, 2]);
    assert!(inbound_must_wait(&ring, false));
    assert!(!inbound_must_wait(&ring, true));
    assert!(!outbound_must_wait(&ring, false));
}
