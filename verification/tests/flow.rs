use teletypewriter_pipes::call::{CallAction, CallEvent, ErrorPoll, HandleCall, Side};
use teletypewriter_pipes::pump::{InboundStage, OutboundStage, PumpAction, PumpEvent};
use teletypewriter_pipes::ring::SpscBuffer;
use teletypewriter_pipes::CHUNK_LEN;

fn handle_read(ring: &mut SpscBuffer, buf: &mut [u8]) -> usize {
    let (mut call, mut action) = HandleCall::begin(Side::Read, true);
    loop {
        let event = match action {
            CallAction::PollErrors => CallEvent::ErrorsPolled(ErrorPoll::Quiet),
            CallAction::Transfer => {
                let nbytes = ring.read_to_slice(buf);
                CallEvent::Transferred { nbytes, ring_blocked: ring.is_empty() }
            }
            CallAction::SetReadiness(_) => CallEvent::ReadinessSet { ok: true },
            CallAction::Recheck => CallEvent::Rechecked { ring_blocked: ring.is_empty() },
            CallAction::NotifyWorker => CallEvent::Notified,
            CallAction::Return(n) => return n,
            other => panic!("unexpected {:?}", other),
        };
        let (next, a) = call.step(event);
        call = next;
        action = a;
    }
}

fn handle_write(ring: &mut SpscBuffer, buf: &[u8]) -> usize {
    let (mut call, mut action) = HandleCall::begin(Side::Write, true);
    loop {
        let event = match action {
            CallAction::PollErrors => CallEvent::ErrorsPolled(ErrorPoll::Quiet),
            CallAction::Transfer => {
                let nbytes = ring.write_from_slice(buf);
                CallEvent::Transferred { nbytes, ring_blocked: ring.is_full() }
            }
            CallAction::SetReadiness(_) => CallEvent::ReadinessSet { ok: true },
            CallAction::Recheck => CallEvent::Rechecked { ring_blocked: ring.is_full() },
            CallAction::NotifyWorker => CallEvent::Notified,
            CallAction::Return(n) => return n,
            other => panic!("unexpected {:?}", other),
        };
        let (next, a) = call.step(event);
        call = next;
        action = a;
    }
}

#[test]
fn reads_return_pipe_bytes_in_order() {
    let source: Vec<u8> = (0..300_000u32).map(|i| (i % 253) as u8).collect();
    let mut pipe_pos = 0;
    let mut ring = SpscBuffer::new(1000);
    let mut chunk = vec![0u8; CHUNK_LEN];
    let mut received = 0usize;
    let mut delivered: Vec<u8> = Vec::new();
    let (mut stage, mut action) = InboundStage::begin();
    let mut reader_buf = vec![0u8; 777];
    loop {
        let event = match action {
            PumpAction::CheckDone => PumpEvent::DoneFlag { done: pipe_pos == source.len() },
            PumpAction::ReadPipe => {
                let n = (source.len() - pipe_pos).min(CHUNK_LEN).min(4000);
                chunk[..n].copy_from_slice(&source[pipe_pos..pipe_pos + n]);
                pipe_pos += n;
                received += n;
                PumpEvent::PipeRead { result: Ok(n) }
            }
            PumpAction::WaitForRoom => {
                // The handle reads while the ring is full.
                while ring.is_full() {
                    let n = handle_read(&mut ring, &mut reader_buf);
                    delivered.extend_from_slice(&reader_buf[..n]);
                }
                PumpEvent::Woken { done: false }
            }
            PumpAction::Store { from, to } => {
                PumpEvent::Stored { count: ring.write_from_slice(&chunk[from..to]) }
            }
            PumpAction::QueryReadiness => PumpEvent::ReadinessQueried { set: false },
            PumpAction::SetReadiness(_) => PumpEvent::ReadinessSet { error: None },
            PumpAction::Exit => break,
            other => panic!("unexpected {:?}", other),
        };
        assert!(received - delivered.len() <= ring.capacity() + CHUNK_LEN);
        assert!(stage.accepts(&event));
        let (next, a) = stage.step(event);
        stage = next;
        action = a;
    }
    while !ring.is_empty() {
        let n = handle_read(&mut ring, &mut reader_buf);
        delivered.extend_from_slice(&reader_buf[..n]);
    }
    assert_eq!(delivered, source);
}

#[test]
fn pipe_gets_written_bytes_in_order() {
    let source: Vec<u8> = (0..200_000u32).map(|i| (i * 7 % 251) as u8).collect();
    let mut written_pos = 0;
    let mut accepted = 0usize;
    let mut ring = SpscBuffer::new(1500);
    let mut chunk = vec![0u8; CHUNK_LEN];
    let mut sink: Vec<u8> = Vec::new();
    let mut short = false;
    let (mut stage, mut action) = OutboundStage::begin();
    loop {
        let event = match action {
            PumpAction::SetReadiness(_) => PumpEvent::ReadinessSet { error: None },
            PumpAction::CheckDone => PumpEvent::DoneFlag {
                done: written_pos == source.len() && ring.is_empty(),
            },
            PumpAction::WaitForData => {
                // The handle writes while the ring is empty.
                while ring.is_empty() && written_pos < source.len() {
                    let end = (written_pos + 900).min(source.len());
                    let n = handle_write(&mut ring, &source[written_pos..end]);
                    written_pos += n;
                    accepted += n;
                }
                PumpEvent::Woken { done: ring.is_empty() }
            }
            PumpAction::Take => PumpEvent::Taken { count: ring.read_to_slice(&mut chunk) },
            PumpAction::QueryReadiness => PumpEvent::ReadinessQueried { set: true },
            PumpAction::WritePipe { from, to } => {
                // The pipe takes short writes every other time.
                short = !short;
                let k = if short { (to - from + 1) / 2 } else { to - from };
                sink.extend_from_slice(&chunk[from..from + k]);
                PumpEvent::PipeWrote { result: Ok(k) }
            }
            PumpAction::Exit => break,
            other => panic!("unexpected {:?}", other),
        };
        assert!(accepted - sink.len() <= ring.capacity() + CHUNK_LEN);
        assert_eq!(&sink[..], &source[..sink.len()]);
        assert!(stage.accepts(&event));
        let (next, a) = stage.step(event);
        stage = next;
        action = a;
    }
    assert_eq!(sink, source);
}
