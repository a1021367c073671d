//! A pipe pump as a whole: the handle's calls and the worker's loop
//! interleaved step by step over the ring they share.
//!
//! A flow holds the worker's stage and the action it asked for, its chunk
//! buffer, the ring's contents, the handle's call in progress and the action
//! that call asked for, the readiness the handle advertises, and the two
//! ends of the byte stream. Each step performs the action the machines asked
//! for: bytes move by the ranges of the worker's `Store` and `WritePipe`
//! actions and as the ring's `write_from_slice` and `read_to_slice` say, and
//! readiness changes as the `SetReadiness` actions say. The laws below speak
//! of every interleaving of the two sides.

use vstd::prelude::*;
use crate::call::{call_next, call_start, CallAction, CallEvent, CallStage, ErrorPoll, HandleCall, Readiness, Side};
use crate::pump::{
    inbound_accepts, inbound_fits, inbound_next, outbound_accepts, outbound_fits, outbound_next,
    InboundStage, OutboundStage, PumpAction, PumpEvent,
};
use crate::ring::{
    accepted_count, delivered_count, law_read_delivers_oldest_first, law_write_keeps_stream,
};
use crate::CHUNK_LEN;

verus! {

/// Whether a handle call's stage and the action it asked for go together.
pub open spec fn call_action_fits(c: HandleCall, a: CallAction) -> bool {
    match c.stage {
        CallStage::AwaitErrors => a is PollErrors,
        CallStage::AwaitTransfer => a is Transfer,
        CallStage::AwaitClear { .. } => a == CallAction::SetReadiness(Readiness::Empty),
        CallStage::AwaitRecheck { .. } => a is Recheck,
        CallStage::AwaitRestore { .. } => a == CallAction::SetReadiness(
            crate::call::open_readiness(c.side),
        ),
        CallStage::AwaitNotify { .. } => a is NotifyWorker,
        CallStage::Done => true,
    }
}

/// Whether a handle call is between clearing and settling its readiness.
pub open spec fn call_settling(c: HandleCall) -> bool {
    c.stage is AwaitClear || c.stage is AwaitRecheck || c.stage is AwaitRestore
}

// ---------------------------------------------------------------------------
// From the pipe to the handle's reads.
// ---------------------------------------------------------------------------

/// The bytes on their way from a pipe to the reads of its handle.
pub struct InboundFlow {
    /// Where the inbound worker stands.
    pub stage: InboundStage,
    /// The action the worker asked for last.
    pub action: PumpAction,
    /// The worker's chunk buffer: the bytes of its last pipe read.
    pub chunk: Seq<u8>,
    /// The ring's contents, oldest first.
    pub ring: Seq<u8>,
    /// The ring's capacity.
    pub cap: nat,
    /// The read call in progress (at stage `Done` when none is).
    pub call: HandleCall,
    /// The action that call asked for last.
    pub call_action: CallAction,
    /// The readiness the handle advertises.
    pub readiness: Readiness,
    /// Whether some readiness change has failed.
    pub set_failed: bool,
    /// Every byte the pipe has handed to the worker, in order.
    pub received: Seq<u8>,
    /// Every byte the handle's reads have returned, in order.
    pub delivered: Seq<u8>,
}

/// What happens next in an inbound flow.
pub enum InboundFlowEvent {
    /// The worker reports its stop flag, a wake-up, or a failed pipe read.
    Worker(PumpEvent),
    /// The worker's pipe read returned these bytes.
    PipeGave(Seq<u8>),
    /// The worker performs its `Store` action.
    RingStored,
    /// The worker looks at the readiness.
    WorkerQuery,
    /// The worker performs its `SetReadiness` action, which fails with this
    /// text if one is given.
    WorkerSignal(Option<String>),
    /// A read call starts on the handle, which still has its worker.
    CallBegin,
    /// The call's look into the error channel found this.
    CallPolled(ErrorPoll),
    /// The call performs its `Transfer` action into a buffer of this many bytes.
    CallTransfer(nat),
    /// The call performs its `SetReadiness` action, successfully or not.
    CallSignal(bool),
    /// The call looks at the ring again.
    CallRecheck,
    /// The call wakes the worker.
    CallNotified,
}

/// An inbound flow before anything happened, with a ring of capacity `cap`.
pub open spec fn inbound_flow_start(cap: nat) -> InboundFlow {
    InboundFlow {
        stage: InboundStage::Idle,
        action: PumpAction::CheckDone,
        chunk: Seq::empty(),
        ring: Seq::empty(),
        cap,
        call: HandleCall { side: Side::Read, stage: CallStage::Done },
        call_action: CallAction::Return(0),
        readiness: Readiness::Empty,
        set_failed: false,
        received: Seq::empty(),
        delivered: Seq::empty(),
    }
}

/// The bytes of the worker's chunk that are not in the ring yet.
pub open spec fn unstored(f: InboundFlow) -> Seq<u8> {
    match f.stage {
        InboundStage::AwaitRoom { nbytes, stored } | InboundStage::AwaitStore { nbytes, stored }
        | InboundStage::AwaitReadiness { nbytes, stored } | InboundStage::AwaitSignal {
            nbytes,
            stored,
        } => f.chunk.subrange(stored as int, nbytes as int),
        _ => Seq::empty(),
    }
}

/// Whether an inbound worker's stage and the action it asked for go together.
pub open spec fn inbound_action_fits(s: InboundStage, a: PumpAction) -> bool {
    match s {
        InboundStage::Idle => a is CheckDone,
        InboundStage::AwaitPipe => a is ReadPipe,
        InboundStage::AwaitRoom { .. } => a is WaitForRoom,
        InboundStage::AwaitStore { nbytes, stored } => a == PumpAction::Store {
            from: stored,
            to: nbytes,
        },
        InboundStage::AwaitReadiness { .. } => a is QueryReadiness,
        InboundStage::AwaitSignal { .. } => a == PumpAction::SetReadiness(Readiness::Readable),
        InboundStage::Exited => true,
    }
}

/// Whether an inbound flow expects this event now.
pub open spec fn inbound_flow_accepts(f: InboundFlow, e: InboundFlowEvent) -> bool {
    match e {
        InboundFlowEvent::Worker(pe) => inbound_accepts(f.stage, pe) && (pe is DoneFlag
            || pe is Woken || pe matches PumpEvent::PipeRead { result: Err(_) }),
        InboundFlowEvent::PipeGave(bytes) => f.action is ReadPipe && inbound_accepts(
            f.stage,
            PumpEvent::PipeRead { result: Ok(bytes.len() as usize) },
        ) && bytes.len() <= CHUNK_LEN,
        InboundFlowEvent::RingStored => f.action is Store && f.stage is AwaitStore,
        InboundFlowEvent::WorkerQuery => f.action is QueryReadiness && f.stage is AwaitReadiness,
        InboundFlowEvent::WorkerSignal(_) => f.action is SetReadiness && f.stage is AwaitSignal,
        InboundFlowEvent::CallBegin => f.call.stage is Done,
        InboundFlowEvent::CallPolled(_) => f.call.stage is AwaitErrors,
        InboundFlowEvent::CallTransfer(_) => f.call_action is Transfer && f.call.stage is AwaitTransfer,
        InboundFlowEvent::CallSignal(_) => f.call_action is SetReadiness && (f.call.stage is AwaitClear
            || f.call.stage is AwaitRestore),
        InboundFlowEvent::CallRecheck => f.call.stage is AwaitRecheck,
        InboundFlowEvent::CallNotified => f.call.stage is AwaitNotify,
    }
}

/// The inbound flow after an event it expects.
pub open spec fn inbound_flow_next(f: InboundFlow, e: InboundFlowEvent) -> InboundFlow {
    match e {
        InboundFlowEvent::Worker(pe) => InboundFlow {
            stage: inbound_next(f.stage, pe).0,
            action: inbound_next(f.stage, pe).1,
            ..f
        },
        InboundFlowEvent::PipeGave(bytes) => {
            let pe = PumpEvent::PipeRead { result: Ok(bytes.len() as usize) };
            InboundFlow {
                stage: inbound_next(f.stage, pe).0,
                action: inbound_next(f.stage, pe).1,
                chunk: bytes,
                received: f.received + bytes,
                ..f
            }
        },
        InboundFlowEvent::RingStored => match f.action {
            PumpAction::Store { from, to } => {
                let n = accepted_count(f.ring.len(), f.cap, (to - from) as nat);
                let pe = PumpEvent::Stored { count: n as usize };
                InboundFlow {
                    stage: inbound_next(f.stage, pe).0,
                    action: inbound_next(f.stage, pe).1,
                    ring: f.ring + f.chunk.subrange(from as int, to as int).subrange(0, n),
                    ..f
                }
            },
            _ => f,
        },
        InboundFlowEvent::WorkerQuery => {
            let pe = PumpEvent::ReadinessQueried { set: f.readiness == Readiness::Readable };
            InboundFlow {
                stage: inbound_next(f.stage, pe).0,
                action: inbound_next(f.stage, pe).1,
                ..f
            }
        },
        InboundFlowEvent::WorkerSignal(error) => {
            let pe = PumpEvent::ReadinessSet { error };
            let readiness = match (f.action, error) {
                (PumpAction::SetReadiness(x), None) => x,
                _ => f.readiness,
            };
            InboundFlow {
                stage: inbound_next(f.stage, pe).0,
                action: inbound_next(f.stage, pe).1,
                readiness,
                set_failed: f.set_failed || error is Some,
                ..f
            }
        },
        InboundFlowEvent::CallBegin => InboundFlow {
            call: call_start(Side::Read, true).0,
            call_action: call_start(Side::Read, true).1,
            ..f
        },
        InboundFlowEvent::CallPolled(poll) => {
            let ce = CallEvent::ErrorsPolled(poll);
            InboundFlow { call: call_next(f.call, ce).0, call_action: call_next(f.call, ce).1, ..f }
        },
        InboundFlowEvent::CallTransfer(room) => {
            let m = delivered_count(f.ring.len(), room);
            let ring = f.ring.subrange(m, f.ring.len() as int);
            let ce = CallEvent::Transferred { nbytes: m as usize, ring_blocked: ring.len() == 0 };
            InboundFlow {
                ring,
                delivered: f.delivered + f.ring.subrange(0, m),
                call: call_next(f.call, ce).0,
                call_action: call_next(f.call, ce).1,
                ..f
            }
        },
        InboundFlowEvent::CallSignal(ok) => {
            let ce = CallEvent::ReadinessSet { ok };
            let readiness = match f.call_action {
                CallAction::SetReadiness(x) => if ok {
                    x
                } else {
                    f.readiness
                },
                _ => f.readiness,
            };
            InboundFlow {
                readiness,
                set_failed: f.set_failed || !ok,
                call: call_next(f.call, ce).0,
                call_action: call_next(f.call, ce).1,
                ..f
            }
        },
        InboundFlowEvent::CallRecheck => {
            let ce = CallEvent::Rechecked { ring_blocked: f.ring.len() == 0 };
            InboundFlow { call: call_next(f.call, ce).0, call_action: call_next(f.call, ce).1, ..f }
        },
        InboundFlowEvent::CallNotified => InboundFlow {
            call: call_next(f.call, CallEvent::Notified).0,
            call_action: call_next(f.call, CallEvent::Notified).1,
            ..f
        },
    }
}

/// Whether an inbound flow expects each event of `evs` in turn.
pub open spec fn inbound_flow_accepts_all(f: InboundFlow, evs: Seq<InboundFlowEvent>) -> bool
    decreases evs.len(),
{
    evs.len() == 0 || (inbound_flow_accepts(f, evs[0]) && inbound_flow_accepts_all(
        inbound_flow_next(f, evs[0]),
        evs.drop_first(),
    ))
}

/// The inbound flow after the events `evs`.
pub open spec fn inbound_flow_reached(f: InboundFlow, evs: Seq<InboundFlowEvent>) -> InboundFlow
    decreases evs.len(),
{
    if evs.len() == 0 {
        f
    } else {
        inbound_flow_reached(inbound_flow_next(f, evs[0]), evs.drop_first())
    }
}

/// What stays true of an inbound flow.
///
/// The bytes returned, then those in the ring, then those of the chunk not
/// stored yet, are exactly the bytes the pipe gave; once the worker stopped,
/// the rest of at most one chunk is missing between the ring and what the
/// pipe gave. And unless a readiness change failed, a ring holding bytes is
/// advertised readable, or the worker is about to advertise it, or the call
/// in progress is settling the readiness.
pub open spec fn inbound_flow_holds(f: InboundFlow) -> bool {
    &&& inbound_fits(f.stage)
    &&& inbound_action_fits(f.stage, f.action)
    &&& f.call.side == Side::Read
    &&& call_action_fits(f.call, f.call_action)
    &&& 0 < f.cap <= usize::MAX
    &&& f.ring.len() <= f.cap
    &&& match f.stage {
        InboundStage::AwaitRoom { nbytes, .. } | InboundStage::AwaitStore { nbytes, .. }
        | InboundStage::AwaitReadiness { nbytes, .. } | InboundStage::AwaitSignal {
            nbytes,
            ..
        } => f.chunk.len() == nbytes,
        _ => true,
    }
    &&& !(f.stage is Exited) ==> f.delivered + f.ring + unstored(f) == f.received
    &&& f.stage is Exited ==> {
        &&& (f.delivered + f.ring).is_prefix_of(f.received)
        &&& f.received.len() - f.delivered.len() - f.ring.len() <= CHUNK_LEN
    }
    &&& (!f.set_failed && f.ring.len() > 0) ==> (f.readiness == Readiness::Readable
        || f.stage is AwaitReadiness || f.stage is AwaitSignal || call_settling(f.call))
}

proof fn lemma_inbound_flow_worker_step(f: InboundFlow, e: InboundFlowEvent)
    requires
        inbound_flow_holds(f),
        inbound_flow_accepts(f, e),
        e is Worker || e is PipeGave || e is RingStored || e is WorkerQuery || e is WorkerSignal,
    ensures
        inbound_flow_holds(inbound_flow_next(f, e)),
        inbound_flow_next(f, e).cap == f.cap,
{
    let g = inbound_flow_next(f, e);
    match e {
        InboundFlowEvent::Worker(pe) => {
            if g.stage is Exited {
                if !(f.stage is Exited) {
                    assert((f.delivered + f.ring) + unstored(f) == f.received);
                    assert((f.delivered + f.ring) =~= f.received.subrange(
                        0,
                        (f.delivered + f.ring).len() as int,
                    ));
                }
            } else {
                assert(unstored(g) =~= unstored(f));
            }
        },
        InboundFlowEvent::PipeGave(bytes) => {
            assert(unstored(f) =~= Seq::<u8>::empty());
            assert(f.delivered + f.ring + unstored(f) =~= f.delivered + f.ring);
            assert(unstored(g) =~= bytes);
            assert(g.delivered + g.ring + unstored(g) =~= (f.delivered + f.ring) + bytes);
        },
        InboundFlowEvent::RingStored => {
            if let InboundStage::AwaitStore { nbytes, stored } = f.stage {
                let rest = f.chunk.subrange(stored as int, nbytes as int);
                let n = accepted_count(f.ring.len(), f.cap, (nbytes - stored) as nat);
                law_write_keeps_stream(f.delivered + f.ring, f.ring, f.delivered, f.cap, rest);
                assert(unstored(g) =~= rest.subrange(n, rest.len() as int));
                assert(rest =~= rest.subrange(0, n) + rest.subrange(n, rest.len() as int));
                assert(g.delivered + g.ring + unstored(g) =~= f.delivered + f.ring + rest);
            }
        },
        InboundFlowEvent::WorkerQuery => {
            assert(unstored(g) =~= unstored(f));
        },
        InboundFlowEvent::WorkerSignal(error) => {
            if g.stage is Exited {
                assert((f.delivered + f.ring) + unstored(f) == f.received);
                assert((f.delivered + f.ring) =~= f.received.subrange(
                    0,
                    (f.delivered + f.ring).len() as int,
                ));
            } else {
                assert(unstored(g) =~= unstored(f));
            }
        },
        _ => {},
    }
}

proof fn lemma_inbound_flow_call_step(f: InboundFlow, e: InboundFlowEvent)
    requires
        inbound_flow_holds(f),
        inbound_flow_accepts(f, e),
        !(e is Worker || e is PipeGave || e is RingStored || e is WorkerQuery
            || e is WorkerSignal),
    ensures
        inbound_flow_holds(inbound_flow_next(f, e)),
        inbound_flow_next(f, e).cap == f.cap,
{
    let g = inbound_flow_next(f, e);
    match e {
        InboundFlowEvent::CallTransfer(room) => {
            let m = delivered_count(f.ring.len(), room);
            law_read_delivers_oldest_first(f.delivered + f.ring, f.ring, f.delivered, room);
            assert(g.delivered + g.ring =~= f.delivered + f.ring);
            assert(unstored(g) == unstored(f));
            assert(g.delivered + g.ring + unstored(g) =~= f.delivered + f.ring + unstored(f));
        },
        _ => {},
    }
}

proof fn lemma_inbound_flow_run(f: InboundFlow, evs: Seq<InboundFlowEvent>)
    requires
        inbound_flow_holds(f),
        inbound_flow_accepts_all(f, evs),
    ensures
        inbound_flow_holds(inbound_flow_reached(f, evs)),
        inbound_flow_reached(f, evs).cap == f.cap,
    decreases evs.len(),
{
    if evs.len() > 0 {
        let e = evs[0];
        if e is Worker || e is PipeGave || e is RingStored || e is WorkerQuery || e is WorkerSignal {
            lemma_inbound_flow_worker_step(f, e);
        } else {
            lemma_inbound_flow_call_step(f, e);
        }
        lemma_inbound_flow_run(inbound_flow_next(f, e), evs.drop_first());
    }
}

/// Reads on a handle return the pipe's bytes in pipe order: at every point
/// of every interleaving of the handle's calls and the worker's loop, the
/// bytes all reads returned so far are a prefix of the bytes the pipe gave,
/// none skipped, repeated, reordered or invented; while the worker runs, the
/// bytes in between are exactly those in the ring followed by the unstored
/// rest of the worker's chunk. At most a full ring plus one chunk has left
/// the pipe without being returned.
pub proof fn law_reads_return_pipe_bytes_in_order(cap: nat, evs: Seq<InboundFlowEvent>)
    requires
        0 < cap <= usize::MAX,
        inbound_flow_accepts_all(inbound_flow_start(cap), evs),
    ensures
        ({
            let f = inbound_flow_reached(inbound_flow_start(cap), evs);
            &&& f.delivered.is_prefix_of(f.received)
            &&& f.received.len() - f.delivered.len() <= cap + CHUNK_LEN
            &&& !(f.stage is Exited) ==> f.delivered + f.ring + unstored(f) == f.received
        }),
{
    let f0 = inbound_flow_start(cap);
    assert(f0.delivered + f0.ring + unstored(f0) =~= f0.received);
    lemma_inbound_flow_run(f0, evs);
    let f = inbound_flow_reached(f0, evs);
    let d = f.delivered.len() as int;
    if f.stage is Exited {
        let front = f.delivered + f.ring;
        assert(front =~= f.received.subrange(0, front.len() as int));
        assert(f.delivered =~= front.subrange(0, d));
        assert(f.received.subrange(0, front.len() as int).subrange(0, d) =~= f.received.subrange(
            0,
            d,
        ));
        assert(f.delivered =~= f.received.subrange(0, d));
    } else {
        let whole = f.delivered + f.ring + unstored(f);
        assert(f.delivered =~= whole.subrange(0, d));
        assert(unstored(f).len() <= CHUNK_LEN);
        assert(f.received.len() == d + f.ring.len() + unstored(f).len());
    }
}

/// A handle never hides bytes from its poll: at every point of every
/// interleaving where no readiness change has failed, no read call is
/// between clearing and settling the readiness, and the worker is not
/// between storing bytes and raising the readiness, a ring that holds bytes
/// is advertised readable.
pub proof fn law_buffered_bytes_are_advertised(cap: nat, evs: Seq<InboundFlowEvent>)
    requires
        0 < cap <= usize::MAX,
        inbound_flow_accepts_all(inbound_flow_start(cap), evs),
    ensures
        ({
            let f = inbound_flow_reached(inbound_flow_start(cap), evs);
            (!f.set_failed && !call_settling(f.call) && !(f.stage is AwaitReadiness)
                && !(f.stage is AwaitSignal) && f.ring.len() > 0) ==> f.readiness
                == Readiness::Readable
        }),
{
    let f0 = inbound_flow_start(cap);
    assert(f0.delivered + f0.ring + unstored(f0) =~= f0.received);
    lemma_inbound_flow_run(f0, evs);
}

/// A worker waiting for room is never stranded by a read: when the ring is
/// full and a read call moves bytes into a buffer of at least one byte, the
/// ring then has room, so the worker's wait ends once it is woken; woken
/// without a stop, it stores at least one more byte of its chunk, in order,
/// and then raises the handle's readiness unless it is readable already.
pub proof fn law_read_releases_waiting_worker(f: InboundFlow, room: nat)
    requires
        inbound_flow_holds(f),
        f.stage is AwaitRoom,
        f.ring.len() == f.cap,
        f.call.stage is AwaitTransfer,
        room >= 1,
    ensures
        ({
            let g = inbound_flow_next(f, InboundFlowEvent::CallTransfer(room));
            let h = inbound_flow_next(g, InboundFlowEvent::Worker(PumpEvent::Woken { done: false }));
            let i = inbound_flow_next(h, InboundFlowEvent::RingStored);
            let j = inbound_flow_next(i, InboundFlowEvent::WorkerQuery);
            &&& inbound_flow_accepts(f, InboundFlowEvent::CallTransfer(room))
            &&& g.ring.len() < g.cap
            &&& inbound_flow_accepts(g, InboundFlowEvent::Worker(PumpEvent::Woken { done: false }))
            &&& inbound_flow_accepts(h, InboundFlowEvent::RingStored)
            &&& i.ring.len() > g.ring.len()
            &&& i.ring.subrange(0, g.ring.len() as int) == g.ring
            &&& i.ring.subrange(g.ring.len() as int, i.ring.len() as int) == unstored(h).subrange(
                0,
                i.ring.len() - g.ring.len(),
            )
            &&& inbound_flow_accepts(i, InboundFlowEvent::WorkerQuery)
            &&& i.readiness != Readiness::Readable ==> j.action == PumpAction::SetReadiness(
                Readiness::Readable,
            )
        }),
{
    let g = inbound_flow_next(f, InboundFlowEvent::CallTransfer(room));
    lemma_inbound_flow_call_step(f, InboundFlowEvent::CallTransfer(room));
    let h = inbound_flow_next(g, InboundFlowEvent::Worker(PumpEvent::Woken { done: false }));
    lemma_inbound_flow_worker_step(g, InboundFlowEvent::Worker(PumpEvent::Woken { done: false }));
    let i = inbound_flow_next(h, InboundFlowEvent::RingStored);
    assert(i.ring.subrange(0, g.ring.len() as int) =~= g.ring);
    if let InboundStage::AwaitStore { nbytes, stored } = h.stage {
        let rest = h.chunk.subrange(stored as int, nbytes as int);
        assert(unstored(h) == rest);
        assert(i.ring.subrange(g.ring.len() as int, i.ring.len() as int) =~= rest.subrange(
            0,
            i.ring.len() - g.ring.len(),
        ));
    }
}

// ---------------------------------------------------------------------------
// From the handle's writes to the pipe.
// ---------------------------------------------------------------------------

/// The bytes on their way from a handle's writes to its pipe.
pub struct OutboundFlow {
    /// Where the outbound worker stands.
    pub stage: OutboundStage,
    /// The action the worker asked for last.
    pub action: PumpAction,
    /// The worker's chunk buffer: the bytes of its last take from the ring.
    pub chunk: Seq<u8>,
    /// The ring's contents, oldest first.
    pub ring: Seq<u8>,
    /// The ring's capacity.
    pub cap: nat,
    /// The write call in progress (at stage `Done` when none is).
    pub call: HandleCall,
    /// The action that call asked for last.
    pub call_action: CallAction,
    /// The readiness the handle advertises.
    pub readiness: Readiness,
    /// Whether some readiness change has failed.
    pub set_failed: bool,
    /// Every byte the handle's writes have taken, in order.
    pub accepted: Seq<u8>,
    /// Every byte the pipe has taken from the worker, in order.
    pub sent: Seq<u8>,
}

/// What happens next in an outbound flow.
pub enum OutboundFlowEvent {
    /// The worker reports its stop flag, a wake-up, or a failed pipe write.
    Worker(PumpEvent),
    /// The worker performs its `Take` action.
    RingTaken,
    /// The worker performs its `WritePipe` action, and the pipe takes this
    /// many bytes of the range.
    PipeTook(nat),
    /// The worker looks at the readiness.
    WorkerQuery,
    /// The worker performs its `SetReadiness` action, which fails with this
    /// text if one is given.
    WorkerSignal(Option<String>),
    /// A write call starts on the handle, which still has its worker.
    CallBegin,
    /// The call's look into the error channel found this.
    CallPolled(ErrorPoll),
    /// The call performs its `Transfer` action from these bytes.
    CallTransfer(Seq<u8>),
    /// The call performs its `SetReadiness` action, successfully or not.
    CallSignal(bool),
    /// The call looks at the ring again.
    CallRecheck,
    /// The call wakes the worker.
    CallNotified,
}

/// An outbound flow before anything happened, with a ring of capacity `cap`.
pub open spec fn outbound_flow_start(cap: nat) -> OutboundFlow {
    OutboundFlow {
        stage: OutboundStage::Announcing,
        action: PumpAction::SetReadiness(Readiness::Writable),
        chunk: Seq::empty(),
        ring: Seq::empty(),
        cap,
        call: HandleCall { side: Side::Write, stage: CallStage::Done },
        call_action: CallAction::Return(0),
        readiness: Readiness::Empty,
        set_failed: false,
        accepted: Seq::empty(),
        sent: Seq::empty(),
    }
}

/// The bytes of the worker's chunk that the pipe has not taken yet.
pub open spec fn unsent(f: OutboundFlow) -> Seq<u8> {
    match f.stage {
        OutboundStage::AwaitReadiness { nbytes } | OutboundStage::AwaitSignal { nbytes } =>
            f.chunk.subrange(0, nbytes as int),
        OutboundStage::Flushing { nbytes, sent } => f.chunk.subrange(sent as int, nbytes as int),
        _ => Seq::empty(),
    }
}

/// Whether an outbound worker's stage and the action it asked for go together.
pub open spec fn outbound_action_fits(s: OutboundStage, a: PumpAction) -> bool {
    match s {
        OutboundStage::Announcing => a == PumpAction::SetReadiness(Readiness::Writable),
        OutboundStage::Idle => a is CheckDone,
        OutboundStage::AwaitData => a is WaitForData,
        OutboundStage::AwaitTake => a is Take,
        OutboundStage::AwaitReadiness { .. } => a is QueryReadiness,
        OutboundStage::AwaitSignal { .. } => a == PumpAction::SetReadiness(Readiness::Writable),
        OutboundStage::Flushing { nbytes, sent } => a == PumpAction::WritePipe {
            from: sent,
            to: nbytes,
        },
        OutboundStage::Exited => true,
    }
}

/// Whether an outbound flow expects this event now.
pub open spec fn outbound_flow_accepts(f: OutboundFlow, e: OutboundFlowEvent) -> bool {
    match e {
        OutboundFlowEvent::Worker(pe) => outbound_accepts(f.stage, pe) && (pe is DoneFlag
            || pe is Woken || pe matches PumpEvent::PipeWrote { result: Err(_) }),
        OutboundFlowEvent::RingTaken => f.action is Take && f.stage is AwaitTake,
        OutboundFlowEvent::PipeTook(k) => f.stage is Flushing && match f.action {
            PumpAction::WritePipe { from, to } => from <= to && k <= to - from,
            _ => false,
        },
        OutboundFlowEvent::WorkerQuery => f.action is QueryReadiness && f.stage is AwaitReadiness,
        OutboundFlowEvent::WorkerSignal(_) => f.action is SetReadiness && (f.stage is Announcing
            || f.stage is AwaitSignal),
        OutboundFlowEvent::CallBegin => f.call.stage is Done,
        OutboundFlowEvent::CallPolled(_) => f.call.stage is AwaitErrors,
        OutboundFlowEvent::CallTransfer(_) => f.call_action is Transfer && f.call.stage is AwaitTransfer,
        OutboundFlowEvent::CallSignal(_) => f.call_action is SetReadiness && (f.call.stage is AwaitClear
            || f.call.stage is AwaitRestore),
        OutboundFlowEvent::CallRecheck => f.call.stage is AwaitRecheck,
        OutboundFlowEvent::CallNotified => f.call.stage is AwaitNotify,
    }
}

/// The outbound flow after an event it expects.
pub open spec fn outbound_flow_next(f: OutboundFlow, e: OutboundFlowEvent) -> OutboundFlow {
    match e {
        OutboundFlowEvent::Worker(pe) => OutboundFlow {
            stage: outbound_next(f.stage, pe).0,
            action: outbound_next(f.stage, pe).1,
            ..f
        },
        OutboundFlowEvent::RingTaken => {
            let m = delivered_count(f.ring.len(), CHUNK_LEN as nat);
            let pe = PumpEvent::Taken { count: m as usize };
            OutboundFlow {
                stage: outbound_next(f.stage, pe).0,
                action: outbound_next(f.stage, pe).1,
                chunk: f.ring.subrange(0, m),
                ring: f.ring.subrange(m, f.ring.len() as int),
                ..f
            }
        },
        OutboundFlowEvent::PipeTook(k) => match f.action {
            PumpAction::WritePipe { from, to } => {
                let pe = PumpEvent::PipeWrote { result: Ok(k as usize) };
                OutboundFlow {
                    stage: outbound_next(f.stage, pe).0,
                    action: outbound_next(f.stage, pe).1,
                    sent: f.sent + f.chunk.subrange(from as int, from + k),
                    ..f
                }
            },
            _ => f,
        },
        OutboundFlowEvent::WorkerQuery => {
            let pe = PumpEvent::ReadinessQueried { set: f.readiness == Readiness::Writable };
            OutboundFlow {
                stage: outbound_next(f.stage, pe).0,
                action: outbound_next(f.stage, pe).1,
                ..f
            }
        },
        OutboundFlowEvent::WorkerSignal(error) => {
            let pe = PumpEvent::ReadinessSet { error };
            let readiness = match (f.action, error) {
                (PumpAction::SetReadiness(x), None) => x,
                _ => f.readiness,
            };
            OutboundFlow {
                stage: outbound_next(f.stage, pe).0,
                action: outbound_next(f.stage, pe).1,
                readiness,
                set_failed: f.set_failed || error is Some,
                ..f
            }
        },
        OutboundFlowEvent::CallBegin => OutboundFlow {
            call: call_start(Side::Write, true).0,
            call_action: call_start(Side::Write, true).1,
            ..f
        },
        OutboundFlowEvent::CallPolled(poll) => {
            let ce = CallEvent::ErrorsPolled(poll);
            OutboundFlow { call: call_next(f.call, ce).0, call_action: call_next(f.call, ce).1, ..f }
        },
        OutboundFlowEvent::CallTransfer(src) => {
            let n = accepted_count(f.ring.len(), f.cap, src.len());
            let ring = f.ring + src.subrange(0, n);
            let ce = CallEvent::Transferred { nbytes: n as usize, ring_blocked: ring.len() == f.cap };
            OutboundFlow {
                ring,
                accepted: f.accepted + src.subrange(0, n),
                call: call_next(f.call, ce).0,
                call_action: call_next(f.call, ce).1,
                ..f
            }
        },
        OutboundFlowEvent::CallSignal(ok) => {
            let ce = CallEvent::ReadinessSet { ok };
            let readiness = match f.call_action {
                CallAction::SetReadiness(x) => if ok {
                    x
                } else {
                    f.readiness
                },
                _ => f.readiness,
            };
            OutboundFlow {
                readiness,
                set_failed: f.set_failed || !ok,
                call: call_next(f.call, ce).0,
                call_action: call_next(f.call, ce).1,
                ..f
            }
        },
        OutboundFlowEvent::CallRecheck => {
            let ce = CallEvent::Rechecked { ring_blocked: f.ring.len() == f.cap };
            OutboundFlow { call: call_next(f.call, ce).0, call_action: call_next(f.call, ce).1, ..f }
        },
        OutboundFlowEvent::CallNotified => OutboundFlow {
            call: call_next(f.call, CallEvent::Notified).0,
            call_action: call_next(f.call, CallEvent::Notified).1,
            ..f
        },
    }
}

/// Whether an outbound flow expects each event of `evs` in turn.
pub open spec fn outbound_flow_accepts_all(f: OutboundFlow, evs: Seq<OutboundFlowEvent>) -> bool
    decreases evs.len(),
{
    evs.len() == 0 || (outbound_flow_accepts(f, evs[0]) && outbound_flow_accepts_all(
        outbound_flow_next(f, evs[0]),
        evs.drop_first(),
    ))
}

/// The outbound flow after the events `evs`.
pub open spec fn outbound_flow_reached(f: OutboundFlow, evs: Seq<OutboundFlowEvent>) -> OutboundFlow
    decreases evs.len(),
{
    if evs.len() == 0 {
        f
    } else {
        outbound_flow_reached(outbound_flow_next(f, evs[0]), evs.drop_first())
    }
}

/// What stays true of an outbound flow.
///
/// The bytes the pipe took, then those of the chunk it has not taken yet,
/// then those in the ring, are exactly the bytes the handle's writes took;
/// once the worker stopped, the rest of at most one chunk is missing between
/// what the pipe took and the ring. And unless a readiness change failed, a
/// ring with room is advertised writable, or the worker is about to
/// advertise it, or the call in progress is settling the readiness.
pub open spec fn outbound_flow_holds(f: OutboundFlow) -> bool {
    &&& outbound_fits(f.stage)
    &&& outbound_action_fits(f.stage, f.action)
    &&& f.call.side == Side::Write
    &&& call_action_fits(f.call, f.call_action)
    &&& 0 < f.cap <= usize::MAX
    &&& f.ring.len() <= f.cap
    &&& match f.stage {
        OutboundStage::AwaitReadiness { nbytes } | OutboundStage::AwaitSignal { nbytes }
        | OutboundStage::Flushing { nbytes, .. } => f.chunk.len() == nbytes,
        _ => true,
    }
    &&& !(f.stage is Exited) ==> f.sent + unsent(f) + f.ring == f.accepted
    &&& f.stage is Exited ==> {
        &&& f.sent.is_prefix_of(f.accepted)
        &&& f.accepted.len() - f.sent.len() - f.ring.len() <= CHUNK_LEN
    }
    &&& (!f.set_failed && f.ring.len() < f.cap) ==> (f.readiness == Readiness::Writable
        || f.stage is Announcing || f.stage is AwaitReadiness || f.stage is AwaitSignal
        || call_settling(f.call))
}

proof fn lemma_outbound_flow_worker_step(f: OutboundFlow, e: OutboundFlowEvent)
    requires
        outbound_flow_holds(f),
        outbound_flow_accepts(f, e),
        e is Worker || e is RingTaken || e is PipeTook || e is WorkerQuery || e is WorkerSignal,
    ensures
        outbound_flow_holds(outbound_flow_next(f, e)),
        outbound_flow_next(f, e).cap == f.cap,
{
    let g = outbound_flow_next(f, e);
    match e {
        OutboundFlowEvent::Worker(pe) => {
            if g.stage is Exited {
                if !(f.stage is Exited) {
                    let whole = f.sent + unsent(f) + f.ring;
                    assert(f.sent =~= whole.subrange(0, f.sent.len() as int));
                }
            } else {
                assert(unsent(g) =~= unsent(f));
            }
        },
        OutboundFlowEvent::RingTaken => {
            let m = delivered_count(f.ring.len(), CHUNK_LEN as nat);
            law_read_delivers_oldest_first(f.ring, f.ring, Seq::empty(), CHUNK_LEN as nat);
            assert(unsent(f) =~= Seq::<u8>::empty());
            assert(unsent(g) =~= f.ring.subrange(0, m));
            assert(g.sent + unsent(g) + g.ring =~= f.sent + unsent(f) + f.ring);
        },
        OutboundFlowEvent::PipeTook(k) => {
            if let OutboundStage::Flushing { nbytes, sent } = f.stage {
                let rest = f.chunk.subrange(sent as int, nbytes as int);
                assert(rest =~= f.chunk.subrange(sent as int, sent + k) + f.chunk.subrange(
                    sent + k,
                    nbytes as int,
                ));
                if sent + k < nbytes {
                    assert(unsent(g) =~= f.chunk.subrange(sent + k, nbytes as int));
                } else {
                    assert(unsent(g) =~= Seq::<u8>::empty());
                    assert(f.chunk.subrange(sent + k, nbytes as int) =~= Seq::<u8>::empty());
                }
                assert(g.sent + unsent(g) + g.ring =~= f.sent + unsent(f) + f.ring);
            }
        },
        OutboundFlowEvent::WorkerQuery => {
            assert(unsent(g) =~= unsent(f));
        },
        OutboundFlowEvent::WorkerSignal(error) => {
            if g.stage is Exited {
                let whole = f.sent + unsent(f) + f.ring;
                assert(f.sent =~= whole.subrange(0, f.sent.len() as int));
            } else {
                assert(unsent(g) =~= unsent(f));
            }
        },
        _ => {},
    }
}

proof fn lemma_outbound_flow_call_step(f: OutboundFlow, e: OutboundFlowEvent)
    requires
        outbound_flow_holds(f),
        outbound_flow_accepts(f, e),
        !(e is Worker || e is RingTaken || e is PipeTook || e is WorkerQuery
            || e is WorkerSignal),
    ensures
        outbound_flow_holds(outbound_flow_next(f, e)),
        outbound_flow_next(f, e).cap == f.cap,
{
    let g = outbound_flow_next(f, e);
    match e {
        OutboundFlowEvent::CallTransfer(src) => {
            let n = accepted_count(f.ring.len(), f.cap, src.len());
            let added = src.subrange(0, n);
            law_write_keeps_stream(f.sent + unsent(f) + f.ring, f.ring, f.sent + unsent(f), f.cap, src);
            if f.stage is Exited {
                assert(f.sent =~= g.accepted.subrange(0, f.sent.len() as int));
            } else {
                assert(g.sent + unsent(g) + g.ring =~= (f.sent + unsent(f) + f.ring) + added);
            }
        },
        _ => {},
    }
}

proof fn lemma_outbound_flow_run(f: OutboundFlow, evs: Seq<OutboundFlowEvent>)
    requires
        outbound_flow_holds(f),
        outbound_flow_accepts_all(f, evs),
    ensures
        outbound_flow_holds(outbound_flow_reached(f, evs)),
        outbound_flow_reached(f, evs).cap == f.cap,
    decreases evs.len(),
{
    if evs.len() > 0 {
        let e = evs[0];
        if e is Worker || e is RingTaken || e is PipeTook || e is WorkerQuery || e is WorkerSignal {
            lemma_outbound_flow_worker_step(f, e);
        } else {
            lemma_outbound_flow_call_step(f, e);
        }
        lemma_outbound_flow_run(outbound_flow_next(f, e), evs.drop_first());
    }
}

/// A handle's pipe receives the written bytes in write order: at every
/// point of every interleaving of the handle's calls and the worker's loop,
/// the bytes the pipe took are a prefix of the bytes the handle's writes
/// took, none skipped, repeated, reordered or invented, a short pipe write
/// being resumed at the first byte it did not take; while the worker runs,
/// the bytes in between are exactly the rest of the worker's chunk followed
/// by those in the ring. At most a full ring plus one chunk has been taken
/// by writes without reaching the pipe.
pub proof fn law_pipe_gets_written_bytes_in_order(cap: nat, evs: Seq<OutboundFlowEvent>)
    requires
        0 < cap <= usize::MAX,
        outbound_flow_accepts_all(outbound_flow_start(cap), evs),
    ensures
        ({
            let f = outbound_flow_reached(outbound_flow_start(cap), evs);
            &&& f.sent.is_prefix_of(f.accepted)
            &&& f.accepted.len() - f.sent.len() <= cap + CHUNK_LEN
            &&& !(f.stage is Exited) ==> f.sent + unsent(f) + f.ring == f.accepted
        }),
{
    let f0 = outbound_flow_start(cap);
    assert(f0.sent + unsent(f0) + f0.ring =~= f0.accepted);
    lemma_outbound_flow_run(f0, evs);
    let f = outbound_flow_reached(f0, evs);
    if !(f.stage is Exited) {
        let whole = f.sent + unsent(f) + f.ring;
        assert(f.sent =~= whole.subrange(0, f.sent.len() as int));
        assert(unsent(f).len() <= CHUNK_LEN);
        assert(f.accepted.len() == f.sent.len() + unsent(f).len() + f.ring.len());
    }
}

/// A handle never hides free room from its poll: at every point of every
/// interleaving where no readiness change has failed, no write call is
/// between clearing and settling the readiness, and the worker is neither
/// announcing itself nor between taking bytes and raising the readiness, a
/// ring with room is advertised writable.
pub proof fn law_free_room_is_advertised(cap: nat, evs: Seq<OutboundFlowEvent>)
    requires
        0 < cap <= usize::MAX,
        outbound_flow_accepts_all(outbound_flow_start(cap), evs),
    ensures
        ({
            let f = outbound_flow_reached(outbound_flow_start(cap), evs);
            (!f.set_failed && !call_settling(f.call) && !(f.stage is Announcing)
                && !(f.stage is AwaitReadiness) && !(f.stage is AwaitSignal) && f.ring.len()
                < f.cap) ==> f.readiness == Readiness::Writable
        }),
{
    let f0 = outbound_flow_start(cap);
    assert(f0.sent + unsent(f0) + f0.ring =~= f0.accepted);
    lemma_outbound_flow_run(f0, evs);
}

/// A worker waiting for bytes is never stranded by a write: when the ring is
/// empty and a write call offers at least one byte, the ring then holds
/// bytes, so the worker's wait ends once it is woken; woken without a stop,
/// it takes those bytes, oldest first, and asks next to write them to the
/// pipe from their first byte, or first to raise the handle's readiness when
/// it is not writable.
pub proof fn law_write_releases_waiting_worker(f: OutboundFlow, src: Seq<u8>)
    requires
        outbound_flow_holds(f),
        f.stage is AwaitData,
        f.ring.len() == 0,
        f.call.stage is AwaitTransfer,
        src.len() >= 1,
    ensures
        ({
            let g = outbound_flow_next(f, OutboundFlowEvent::CallTransfer(src));
            let h = outbound_flow_next(g, OutboundFlowEvent::Worker(PumpEvent::Woken { done: false }));
            let i = outbound_flow_next(h, OutboundFlowEvent::RingTaken);
            let j = outbound_flow_next(i, OutboundFlowEvent::WorkerQuery);
            &&& outbound_flow_accepts(f, OutboundFlowEvent::CallTransfer(src))
            &&& g.ring.len() > 0
            &&& outbound_flow_accepts(g, OutboundFlowEvent::Worker(PumpEvent::Woken { done: false }))
            &&& outbound_flow_accepts(h, OutboundFlowEvent::RingTaken)
            &&& unsent(i).len() > 0
            &&& unsent(i) == g.ring.subrange(0, unsent(i).len() as int)
            &&& outbound_flow_accepts(i, OutboundFlowEvent::WorkerQuery)
            &&& i.readiness == Readiness::Writable ==> j.action == PumpAction::WritePipe {
                from: 0,
                to: unsent(i).len() as usize,
            }
            &&& i.readiness != Readiness::Writable ==> j.action == PumpAction::SetReadiness(
                Readiness::Writable,
            )
        }),
{
    let g = outbound_flow_next(f, OutboundFlowEvent::CallTransfer(src));
    lemma_outbound_flow_call_step(f, OutboundFlowEvent::CallTransfer(src));
    let h = outbound_flow_next(g, OutboundFlowEvent::Worker(PumpEvent::Woken { done: false }));
    lemma_outbound_flow_worker_step(g, OutboundFlowEvent::Worker(PumpEvent::Woken { done: false }));
    let i = outbound_flow_next(h, OutboundFlowEvent::RingTaken);
    let m = delivered_count(g.ring.len(), CHUNK_LEN as nat);
    assert(unsent(i) =~= g.ring.subrange(0, m));
}

} // verus!
