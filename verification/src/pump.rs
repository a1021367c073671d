//! The decisions a worker thread takes while it moves bytes between the
//! pipe and the ring it shares with its handle.
//!
//! An inbound worker reads the pipe and stores what it read into the ring;
//! an outbound worker takes what the ring holds and writes it to the pipe.
//! Each step maps the worker's stage and what its last action reported to
//! the next stage and the next action.

use vstd::prelude::*;
use crate::call::Readiness;
use crate::ring::SpscBuffer;
use crate::CHUNK_LEN;

verus! {

/// What the worker reports back after an action.
#[derive(Debug, PartialEq, Eq)]
pub enum PumpEvent {
    /// The stop flag, read at the top of the loop.
    DoneFlag { done: bool },
    /// The outcome of a pipe read into the worker's chunk buffer.
    PipeRead { result: Result<usize, String> },
    /// The worker stopped waiting; `done` is the stop flag it then read.
    Woken { done: bool },
    /// The ring stored this many bytes of the requested range.
    Stored { count: usize },
    /// The ring gave this many bytes into the worker's chunk buffer.
    Taken { count: usize },
    /// Whether the handle's readiness already holds the worker's side.
    ReadinessQueried { set: bool },
    /// The outcome of setting the readiness.
    ReadinessSet { error: Option<String> },
    /// The outcome of a pipe write of the requested range.
    PipeWrote { result: Result<usize, String> },
}

/// What the worker is asked to do next.
#[derive(Debug, PartialEq, Eq)]
pub enum PumpAction {
    /// Read the stop flag.
    CheckDone,
    /// Read the pipe into the chunk buffer.
    ReadPipe,
    /// Wait, under the ring's lock, while the ring is full and no stop was asked.
    WaitForRoom,
    /// Store the chunk bytes `from..to` into the ring.
    Store { from: usize, to: usize },
    /// Wait, under the ring's lock, while the ring is empty and no stop was asked.
    WaitForData,
    /// Take what the ring holds into the chunk buffer.
    Take,
    /// Look at the handle's readiness.
    QueryReadiness,
    /// Advertise this readiness.
    SetReadiness(Readiness),
    /// Write the chunk bytes `from..to` to the pipe.
    WritePipe { from: usize, to: usize },
    /// Send this error text to the handle and stop.
    Report(String),
    /// Stop.
    Exit,
}

/// Where an inbound worker stands; `nbytes` is the size of the chunk read
/// from the pipe and `stored` how much of it the ring holds already.
#[derive(Debug, PartialEq, Eq)]
pub enum InboundStage {
    Idle,
    AwaitPipe,
    AwaitRoom { nbytes: usize, stored: usize },
    AwaitStore { nbytes: usize, stored: usize },
    AwaitReadiness { nbytes: usize, stored: usize },
    AwaitSignal { nbytes: usize, stored: usize },
    Exited,
}

/// Where an outbound worker stands; `nbytes` is the size of the chunk taken
/// from the ring and `sent` how much of it the pipe took already.
#[derive(Debug, PartialEq, Eq)]
pub enum OutboundStage {
    Announcing,
    Idle,
    AwaitData,
    AwaitTake,
    AwaitReadiness { nbytes: usize },
    AwaitSignal { nbytes: usize },
    Flushing { nbytes: usize, sent: usize },
    Exited,
}

/// Whether an inbound stage holds counts that fit together.
pub open spec fn inbound_fits(s: InboundStage) -> bool {
    match s {
        InboundStage::AwaitRoom { nbytes, stored } | InboundStage::AwaitStore { nbytes, stored } =>
            stored < nbytes <= CHUNK_LEN,
        InboundStage::AwaitReadiness { nbytes, stored } | InboundStage::AwaitSignal {
            nbytes,
            stored,
        } => stored <= nbytes <= CHUNK_LEN,
        _ => true,
    }
}

/// Whether an outbound stage holds counts that fit together.
pub open spec fn outbound_fits(s: OutboundStage) -> bool {
    match s {
        OutboundStage::AwaitReadiness { nbytes } | OutboundStage::AwaitSignal { nbytes } =>
            nbytes <= CHUNK_LEN,
        OutboundStage::Flushing { nbytes, sent } => sent < nbytes <= CHUNK_LEN,
        _ => true,
    }
}

/// Bytes of the current chunk that an inbound worker has read from the pipe
/// and not yet stored into the ring.
pub open spec fn inbound_pending(s: InboundStage) -> int {
    match s {
        InboundStage::AwaitRoom { nbytes, stored } | InboundStage::AwaitStore { nbytes, stored }
        | InboundStage::AwaitReadiness { nbytes, stored } | InboundStage::AwaitSignal {
            nbytes,
            stored,
        } => nbytes - stored,
        _ => 0,
    }
}

/// Bytes of the current chunk that an outbound worker has taken from the
/// ring and not yet written to the pipe.
pub open spec fn outbound_pending(s: OutboundStage) -> int {
    match s {
        OutboundStage::AwaitReadiness { nbytes } | OutboundStage::AwaitSignal { nbytes } => nbytes
            as int,
        OutboundStage::Flushing { nbytes, sent } => nbytes - sent,
        _ => 0,
    }
}

/// Whether an inbound worker at stage `s` expects the event `e`.
pub open spec fn inbound_accepts(s: InboundStage, e: PumpEvent) -> bool {
    match (s, e) {
        (InboundStage::Idle, PumpEvent::DoneFlag { .. }) => true,
        (InboundStage::AwaitPipe, PumpEvent::PipeRead { result }) => match result {
            Ok(n) => n <= CHUNK_LEN,
            Err(_) => true,
        },
        (InboundStage::AwaitRoom { .. }, PumpEvent::Woken { .. }) => true,
        (InboundStage::AwaitStore { nbytes, stored }, PumpEvent::Stored { count }) => count
            <= nbytes - stored,
        (InboundStage::AwaitReadiness { .. }, PumpEvent::ReadinessQueried { .. }) => true,
        (InboundStage::AwaitSignal { .. }, PumpEvent::ReadinessSet { .. }) => true,
        _ => false,
    }
}

/// Where an inbound worker goes once `stored` bytes of a chunk of `nbytes`
/// are in the ring: back to waiting for room while some are left, else back
/// to the top of the loop.
pub open spec fn inbound_continue(nbytes: usize, stored: usize) -> (InboundStage, PumpAction) {
    if stored < nbytes {
        (InboundStage::AwaitRoom { nbytes, stored }, PumpAction::WaitForRoom)
    } else {
        (InboundStage::Idle, PumpAction::CheckDone)
    }
}

/// The stage and action that follow an event an inbound worker expects.
pub open spec fn inbound_next(s: InboundStage, e: PumpEvent) -> (InboundStage, PumpAction) {
    match (s, e) {
        (InboundStage::Idle, PumpEvent::DoneFlag { done }) => if done {
            (InboundStage::Exited, PumpAction::Exit)
        } else {
            (InboundStage::AwaitPipe, PumpAction::ReadPipe)
        },
        (InboundStage::AwaitPipe, PumpEvent::PipeRead { result }) => match result {
            Err(m) => (InboundStage::Exited, PumpAction::Report(m)),
            Ok(n) => inbound_continue(n, 0),
        },
        (InboundStage::AwaitRoom { nbytes, stored }, PumpEvent::Woken { done }) => if done {
            (InboundStage::Exited, PumpAction::Exit)
        } else {
            (
                InboundStage::AwaitStore { nbytes, stored },
                PumpAction::Store { from: stored, to: nbytes },
            )
        },
        (InboundStage::AwaitStore { nbytes, stored }, PumpEvent::Stored { count }) => (
            InboundStage::AwaitReadiness { nbytes, stored: (stored + count) as usize },
            PumpAction::QueryReadiness,
        ),
        (InboundStage::AwaitReadiness { nbytes, stored }, PumpEvent::ReadinessQueried { set }) =>
            if set {
            inbound_continue(nbytes, stored)
        } else {
            (
                InboundStage::AwaitSignal { nbytes, stored },
                PumpAction::SetReadiness(Readiness::Readable),
            )
        },
        (InboundStage::AwaitSignal { nbytes, stored }, PumpEvent::ReadinessSet { error }) =>
            match error {
            Some(m) => (InboundStage::Exited, PumpAction::Report(m)),
            None => inbound_continue(nbytes, stored),
        },
        _ => (s, PumpAction::Exit),
    }
}

/// Where an outbound worker goes once `sent` bytes of a chunk of `nbytes`
/// are in the pipe: on writing while some are left, else back to the top of
/// the loop.
pub open spec fn outbound_continue(nbytes: usize, sent: usize) -> (OutboundStage, PumpAction) {
    if sent < nbytes {
        (OutboundStage::Flushing { nbytes, sent }, PumpAction::WritePipe { from: sent, to: nbytes })
    } else {
        (OutboundStage::Idle, PumpAction::CheckDone)
    }
}

/// Whether an outbound worker at stage `s` expects the event `e`.
pub open spec fn outbound_accepts(s: OutboundStage, e: PumpEvent) -> bool {
    match (s, e) {
        (OutboundStage::Announcing, PumpEvent::ReadinessSet { .. }) => true,
        (OutboundStage::Idle, PumpEvent::DoneFlag { .. }) => true,
        (OutboundStage::AwaitData, PumpEvent::Woken { .. }) => true,
        (OutboundStage::AwaitTake, PumpEvent::Taken { count }) => count <= CHUNK_LEN,
        (OutboundStage::AwaitReadiness { .. }, PumpEvent::ReadinessQueried { .. }) => true,
        (OutboundStage::AwaitSignal { .. }, PumpEvent::ReadinessSet { .. }) => true,
        (OutboundStage::Flushing { nbytes, sent }, PumpEvent::PipeWrote { result }) => match result {
            Ok(k) => k <= nbytes - sent,
            Err(_) => true,
        },
        _ => false,
    }
}

/// The stage and action that follow an event an outbound worker expects.
pub open spec fn outbound_next(s: OutboundStage, e: PumpEvent) -> (OutboundStage, PumpAction) {
    match (s, e) {
        (OutboundStage::Announcing, PumpEvent::ReadinessSet { error }) => match error {
            Some(m) => (OutboundStage::Exited, PumpAction::Report(m)),
            None => (OutboundStage::Idle, PumpAction::CheckDone),
        },
        (OutboundStage::Idle, PumpEvent::DoneFlag { done }) => if done {
            (OutboundStage::Exited, PumpAction::Exit)
        } else {
            (OutboundStage::AwaitData, PumpAction::WaitForData)
        },
        (OutboundStage::AwaitData, PumpEvent::Woken { done }) => if done {
            (OutboundStage::Exited, PumpAction::Exit)
        } else {
            (OutboundStage::AwaitTake, PumpAction::Take)
        },
        (OutboundStage::AwaitTake, PumpEvent::Taken { count }) => (
            OutboundStage::AwaitReadiness { nbytes: count },
            PumpAction::QueryReadiness,
        ),
        (OutboundStage::AwaitReadiness { nbytes }, PumpEvent::ReadinessQueried { set }) => if set {
            outbound_continue(nbytes, 0)
        } else {
            (OutboundStage::AwaitSignal { nbytes }, PumpAction::SetReadiness(Readiness::Writable))
        },
        (OutboundStage::AwaitSignal { nbytes }, PumpEvent::ReadinessSet { error }) => match error {
            Some(m) => (OutboundStage::Exited, PumpAction::Report(m)),
            None => outbound_continue(nbytes, 0),
        },
        (OutboundStage::Flushing { nbytes, sent }, PumpEvent::PipeWrote { result }) => match result {
            Err(m) => (OutboundStage::Exited, PumpAction::Report(m)),
            Ok(k) => outbound_continue(nbytes, (sent + k) as usize),
        },
        _ => (s, PumpAction::Exit),
    }
}

impl InboundStage {
    /// The stage and first action of an inbound worker.
    pub fn begin() -> (start: (InboundStage, PumpAction))
        ensures
            start == (InboundStage::Idle, PumpAction::CheckDone),
    {
        (InboundStage::Idle, PumpAction::CheckDone)
    }

    /// Whether the worker expects this event now.
    pub fn accepts(&self, e: &PumpEvent) -> (b: bool)
        ensures
            b == inbound_accepts(*self, *e),
    {
        match (self, e) {
            (InboundStage::Idle, PumpEvent::DoneFlag { .. }) => true,
            (InboundStage::AwaitPipe, PumpEvent::PipeRead { result }) => match result {
                Ok(n) => *n <= CHUNK_LEN,
                Err(_) => true,
            },
            (InboundStage::AwaitRoom { .. }, PumpEvent::Woken { .. }) => true,
            (InboundStage::AwaitStore { nbytes, stored }, PumpEvent::Stored { count }) => {
                *stored <= *nbytes && *count <= *nbytes - *stored
            },
            (InboundStage::AwaitReadiness { .. }, PumpEvent::ReadinessQueried { .. }) => true,
            (InboundStage::AwaitSignal { .. }, PumpEvent::ReadinessSet { .. }) => true,
            _ => false,
        }
    }

    /// Takes the worker one step further on an event it expects.
    pub fn step(self, e: PumpEvent) -> (next: (InboundStage, PumpAction))
        requires
            inbound_fits(self),
            inbound_accepts(self, e),
        ensures
            next == inbound_next(self, e),
            inbound_fits(next.0),
    {
        match (self, e) {
            (InboundStage::Idle, PumpEvent::DoneFlag { done }) => if done {
                (InboundStage::Exited, PumpAction::Exit)
            } else {
                (InboundStage::AwaitPipe, PumpAction::ReadPipe)
            },
            (InboundStage::AwaitPipe, PumpEvent::PipeRead { result }) => match result {
                Err(m) => (InboundStage::Exited, PumpAction::Report(m)),
                Ok(n) => inbound_resume(n, 0),
            },
            (InboundStage::AwaitRoom { nbytes, stored }, PumpEvent::Woken { done }) => if done {
                (InboundStage::Exited, PumpAction::Exit)
            } else {
                (
                    InboundStage::AwaitStore { nbytes, stored },
                    PumpAction::Store { from: stored, to: nbytes },
                )
            },
            (InboundStage::AwaitStore { nbytes, stored }, PumpEvent::Stored { count }) => (
                InboundStage::AwaitReadiness { nbytes, stored: stored + count },
                PumpAction::QueryReadiness,
            ),
            (
                InboundStage::AwaitReadiness { nbytes, stored },
                PumpEvent::ReadinessQueried { set },
            ) => if set {
                inbound_resume(nbytes, stored)
            } else {
                (
                    InboundStage::AwaitSignal { nbytes, stored },
                    PumpAction::SetReadiness(Readiness::Readable),
                )
            },
            (InboundStage::AwaitSignal { nbytes, stored }, PumpEvent::ReadinessSet { error }) =>
                match error {
                Some(m) => (InboundStage::Exited, PumpAction::Report(m)),
                None => inbound_resume(nbytes, stored),
            },
            (s, _) => (s, PumpAction::Exit),
        }
    }
}

fn inbound_resume(nbytes: usize, stored: usize) -> (next: (InboundStage, PumpAction))
    requires
        stored <= nbytes <= CHUNK_LEN,
    ensures
        next == inbound_continue(nbytes, stored),
        inbound_fits(next.0),
{
    if stored < nbytes {
        (InboundStage::AwaitRoom { nbytes, stored }, PumpAction::WaitForRoom)
    } else {
        (InboundStage::Idle, PumpAction::CheckDone)
    }
}

impl OutboundStage {
    /// The stage and first action of an outbound worker: it starts by
    /// advertising that its handle is writable.
    pub fn begin() -> (start: (OutboundStage, PumpAction))
        ensures
            start == (OutboundStage::Announcing, PumpAction::SetReadiness(Readiness::Writable)),
    {
        (OutboundStage::Announcing, PumpAction::SetReadiness(Readiness::Writable))
    }

    /// Whether the worker expects this event now.
    pub fn accepts(&self, e: &PumpEvent) -> (b: bool)
        ensures
            b == outbound_accepts(*self, *e),
    {
        match (self, e) {
            (OutboundStage::Announcing, PumpEvent::ReadinessSet { .. }) => true,
            (OutboundStage::Idle, PumpEvent::DoneFlag { .. }) => true,
            (OutboundStage::AwaitData, PumpEvent::Woken { .. }) => true,
            (OutboundStage::AwaitTake, PumpEvent::Taken { count }) => *count <= CHUNK_LEN,
            (OutboundStage::AwaitReadiness { .. }, PumpEvent::ReadinessQueried { .. }) => true,
            (OutboundStage::AwaitSignal { .. }, PumpEvent::ReadinessSet { .. }) => true,
            (OutboundStage::Flushing { nbytes, sent }, PumpEvent::PipeWrote { result }) =>
                match result {
                Ok(k) => *sent <= *nbytes && *k <= *nbytes - *sent,
                Err(_) => true,
            },
            _ => false,
        }
    }

    /// Takes the worker one step further on an event it expects.
    pub fn step(self, e: PumpEvent) -> (next: (OutboundStage, PumpAction))
        requires
            outbound_fits(self),
            outbound_accepts(self, e),
        ensures
            next == outbound_next(self, e),
            outbound_fits(next.0),
    {
        match (self, e) {
            (OutboundStage::Announcing, PumpEvent::ReadinessSet { error }) => match error {
                Some(m) => (OutboundStage::Exited, PumpAction::Report(m)),
                None => (OutboundStage::Idle, PumpAction::CheckDone),
            },
            (OutboundStage::Idle, PumpEvent::DoneFlag { done }) => if done {
                (OutboundStage::Exited, PumpAction::Exit)
            } else {
                (OutboundStage::AwaitData, PumpAction::WaitForData)
            },
            (OutboundStage::AwaitData, PumpEvent::Woken { done }) => if done {
                (OutboundStage::Exited, PumpAction::Exit)
            } else {
                (OutboundStage::AwaitTake, PumpAction::Take)
            },
            (OutboundStage::AwaitTake, PumpEvent::Taken { count }) => (
                OutboundStage::AwaitReadiness { nbytes: count },
                PumpAction::QueryReadiness,
            ),
            (OutboundStage::AwaitReadiness { nbytes }, PumpEvent::ReadinessQueried { set }) =>
                if set {
                outbound_resume(nbytes, 0)
            } else {
                (
                    OutboundStage::AwaitSignal { nbytes },
                    PumpAction::SetReadiness(Readiness::Writable),
                )
            },
            (OutboundStage::AwaitSignal { nbytes }, PumpEvent::ReadinessSet { error }) =>
                match error {
                Some(m) => (OutboundStage::Exited, PumpAction::Report(m)),
                None => outbound_resume(nbytes, 0),
            },
            (OutboundStage::Flushing { nbytes, sent }, PumpEvent::PipeWrote { result }) =>
                match result {
                Err(m) => (OutboundStage::Exited, PumpAction::Report(m)),
                Ok(k) => outbound_resume(nbytes, sent + k),
            },
            (s, _) => (s, PumpAction::Exit),
        }
    }
}

fn outbound_resume(nbytes: usize, sent: usize) -> (next: (OutboundStage, PumpAction))
    requires
        sent <= nbytes <= CHUNK_LEN,
    ensures
        next == outbound_continue(nbytes, sent),
        outbound_fits(next.0),
{
    if sent < nbytes {
        (OutboundStage::Flushing { nbytes, sent }, PumpAction::WritePipe { from: sent, to: nbytes })
    } else {
        (OutboundStage::Idle, PumpAction::CheckDone)
    }
}

/// Whether an inbound worker must go on waiting: the ring has no room and
/// no stop was asked.
pub fn inbound_must_wait(ring: &SpscBuffer, done: bool) -> (b: bool)
    ensures
        b == (ring@.len() == ring.cap() && !done),
{
    ring.is_full() && !done
}

/// Whether an outbound worker must go on waiting: the ring holds nothing and
/// no stop was asked.
pub fn outbound_must_wait(ring: &SpscBuffer, done: bool) -> (b: bool)
    ensures
        b == (ring@.len() == 0 && !done),
{
    ring.is_empty() && !done
}

/// Whether an inbound worker starting at `s` expects each event of `evs` in turn.
pub open spec fn inbound_accepts_all(s: InboundStage, evs: Seq<PumpEvent>) -> bool
    decreases evs.len(),
{
    evs.len() == 0 || (inbound_accepts(s, evs[0]) && inbound_accepts_all(
        inbound_next(s, evs[0]).0,
        evs.drop_first(),
    ))
}

/// The stage an inbound worker starting at `s` reaches after the events `evs`.
pub open spec fn inbound_reached(s: InboundStage, evs: Seq<PumpEvent>) -> InboundStage
    decreases evs.len(),
{
    if evs.len() == 0 {
        s
    } else {
        inbound_reached(inbound_next(s, evs[0]).0, evs.drop_first())
    }
}

/// Whether an outbound worker starting at `s` expects each event of `evs` in turn.
pub open spec fn outbound_accepts_all(s: OutboundStage, evs: Seq<PumpEvent>) -> bool
    decreases evs.len(),
{
    evs.len() == 0 || (outbound_accepts(s, evs[0]) && outbound_accepts_all(
        outbound_next(s, evs[0]).0,
        evs.drop_first(),
    ))
}

/// The stage an outbound worker starting at `s` reaches after the events `evs`.
pub open spec fn outbound_reached(s: OutboundStage, evs: Seq<PumpEvent>) -> OutboundStage
    decreases evs.len(),
{
    if evs.len() == 0 {
        s
    } else {
        outbound_reached(outbound_next(s, evs[0]).0, evs.drop_first())
    }
}

/// Bytes the events report as read from the pipe.
pub open spec fn bytes_read(evs: Seq<PumpEvent>) -> int
    decreases evs.len(),
{
    if evs.len() == 0 {
        0
    } else {
        let here = match evs[0] {
            PumpEvent::PipeRead { result: Ok(n) } => n as int,
            _ => 0,
        };
        here + bytes_read(evs.drop_first())
    }
}

/// Bytes the events report as stored into the ring.
pub open spec fn bytes_stored(evs: Seq<PumpEvent>) -> int
    decreases evs.len(),
{
    if evs.len() == 0 {
        0
    } else {
        let here = match evs[0] {
            PumpEvent::Stored { count } => count as int,
            _ => 0,
        };
        here + bytes_stored(evs.drop_first())
    }
}

/// Bytes the events report as taken from the ring.
pub open spec fn bytes_taken(evs: Seq<PumpEvent>) -> int
    decreases evs.len(),
{
    if evs.len() == 0 {
        0
    } else {
        let here = match evs[0] {
            PumpEvent::Taken { count } => count as int,
            _ => 0,
        };
        here + bytes_taken(evs.drop_first())
    }
}

/// Bytes the events report as written to the pipe.
pub open spec fn bytes_sent(evs: Seq<PumpEvent>) -> int
    decreases evs.len(),
{
    if evs.len() == 0 {
        0
    } else {
        let here = match evs[0] {
            PumpEvent::PipeWrote { result: Ok(k) } => k as int,
            _ => 0,
        };
        here + bytes_sent(evs.drop_first())
    }
}

proof fn lemma_inbound_conserves(s: InboundStage, evs: Seq<PumpEvent>)
    requires
        inbound_fits(s),
        inbound_accepts_all(s, evs),
    ensures
        inbound_fits(inbound_reached(s, evs)),
        !(inbound_reached(s, evs) is Exited) ==> bytes_read(evs) + inbound_pending(s)
            == bytes_stored(evs) + inbound_pending(inbound_reached(s, evs)),
        inbound_reached(s, evs) is Exited ==> 0 <= bytes_read(evs) + inbound_pending(s)
            - bytes_stored(evs) <= CHUNK_LEN,
    decreases evs.len(),
{
    if evs.len() > 0 {
        let s2 = inbound_next(s, evs[0]).0;
        let read_here = match evs[0] {
            PumpEvent::PipeRead { result: Ok(n) } => n as int,
            _ => 0,
        };
        let stored_here = match evs[0] {
            PumpEvent::Stored { count } => count as int,
            _ => 0,
        };
        assert(inbound_fits(s2));
        if s2 is Exited {
            reveal_with_fuel(inbound_accepts_all, 2);
            assert(evs.drop_first().len() == 0);
            assert(read_here + inbound_pending(s) - stored_here <= CHUNK_LEN);
            assert(read_here + inbound_pending(s) - stored_here >= 0);
        } else {
            assert(read_here + inbound_pending(s) == stored_here + inbound_pending(s2));
        }
        lemma_inbound_conserves(s2, evs.drop_first());
        assert(bytes_read(evs) == read_here + bytes_read(evs.drop_first()));
        assert(bytes_stored(evs) == stored_here + bytes_stored(evs.drop_first()));
        assert(inbound_reached(s, evs) == inbound_reached(s2, evs.drop_first()));
    }
}

proof fn lemma_outbound_conserves(s: OutboundStage, evs: Seq<PumpEvent>)
    requires
        outbound_fits(s),
        outbound_accepts_all(s, evs),
    ensures
        outbound_fits(outbound_reached(s, evs)),
        !(outbound_reached(s, evs) is Exited) ==> bytes_taken(evs) + outbound_pending(s)
            == bytes_sent(evs) + outbound_pending(outbound_reached(s, evs)),
        outbound_reached(s, evs) is Exited ==> 0 <= bytes_taken(evs) + outbound_pending(s)
            - bytes_sent(evs) <= CHUNK_LEN,
    decreases evs.len(),
{
    if evs.len() > 0 {
        let s2 = outbound_next(s, evs[0]).0;
        let taken_here = match evs[0] {
            PumpEvent::Taken { count } => count as int,
            _ => 0,
        };
        let sent_here = match evs[0] {
            PumpEvent::PipeWrote { result: Ok(k) } => k as int,
            _ => 0,
        };
        assert(outbound_fits(s2));
        if s2 is Exited {
            reveal_with_fuel(outbound_accepts_all, 2);
            assert(evs.drop_first().len() == 0);
            assert(taken_here + outbound_pending(s) - sent_here <= CHUNK_LEN);
            assert(taken_here + outbound_pending(s) - sent_here >= 0);
        } else {
            assert(taken_here + outbound_pending(s) == sent_here + outbound_pending(s2));
        }
        lemma_outbound_conserves(s2, evs.drop_first());
        assert(bytes_taken(evs) == taken_here + bytes_taken(evs.drop_first()));
        assert(bytes_sent(evs) == sent_here + bytes_sent(evs.drop_first()));
        assert(outbound_reached(s, evs) == outbound_reached(s2, evs.drop_first()));
    }
}

/// An inbound worker loses no byte it read from the pipe until it stops: at
/// every point of a run that has not stopped, the bytes read equal the bytes
/// stored into the ring plus those of the current chunk still waiting for
/// room (never more than a chunk), and whenever it is back at the top of its
/// loop or reading the pipe again, every byte read so far is in the ring.
/// When it stops, what it leaves unstored is the rest of one chunk at most.
pub proof fn law_inbound_stores_everything_read(evs: Seq<PumpEvent>)
    requires
        inbound_accepts_all(InboundStage::Idle, evs),
    ensures
        !(inbound_reached(InboundStage::Idle, evs) is Exited) ==> bytes_read(evs)
            == bytes_stored(evs) + inbound_pending(inbound_reached(InboundStage::Idle, evs)),
        0 <= inbound_pending(inbound_reached(InboundStage::Idle, evs)) <= CHUNK_LEN,
        inbound_reached(InboundStage::Idle, evs) is Idle || inbound_reached(
            InboundStage::Idle,
            evs,
        ) is AwaitPipe ==> bytes_read(evs) == bytes_stored(evs),
        0 <= bytes_read(evs) - bytes_stored(evs) <= CHUNK_LEN,
{
    lemma_inbound_conserves(InboundStage::Idle, evs);
}

/// An outbound worker loses no byte it took from the ring until it stops:
/// at every point of a run that has not stopped, the bytes taken equal the
/// bytes written to the pipe plus those of the current chunk not yet written
/// (never more than a chunk), and whenever it is back at the top of its loop
/// or waiting for the ring, every byte taken so far is in the pipe. When it
/// stops, what it leaves unwritten is the rest of one chunk at most.
pub proof fn law_outbound_sends_everything_taken(evs: Seq<PumpEvent>)
    requires
        outbound_accepts_all(OutboundStage::Announcing, evs),
    ensures
        !(outbound_reached(OutboundStage::Announcing, evs) is Exited) ==> bytes_taken(evs)
            == bytes_sent(evs) + outbound_pending(outbound_reached(OutboundStage::Announcing, evs)),
        0 <= outbound_pending(outbound_reached(OutboundStage::Announcing, evs)) <= CHUNK_LEN,
        outbound_reached(OutboundStage::Announcing, evs) is Idle || outbound_reached(
            OutboundStage::Announcing,
            evs,
        ) is AwaitData || outbound_reached(OutboundStage::Announcing, evs) is AwaitTake
            ==> bytes_taken(evs) == bytes_sent(evs),
        0 <= bytes_taken(evs) - bytes_sent(evs) <= CHUNK_LEN,
{
    lemma_outbound_conserves(OutboundStage::Announcing, evs);
}

/// Every event that can happen while an inbound worker waits is one it
/// expects: either stop flag, any failed pipe read and any read of up to a
/// chunk, either wake-up, any store that fits the rest of the chunk, either
/// readiness answer, and any outcome of a readiness change.
pub proof fn law_inbound_expects_every_outcome()
    ensures
        forall|done: bool| #[trigger] inbound_accepts(InboundStage::Idle, PumpEvent::DoneFlag { done }),
        forall|m: String|
            #[trigger] inbound_accepts(InboundStage::AwaitPipe, PumpEvent::PipeRead { result: Err(m) }),
        forall|n: usize|
            n <= CHUNK_LEN ==> #[trigger] inbound_accepts(
                InboundStage::AwaitPipe,
                PumpEvent::PipeRead { result: Ok(n) },
            ),
        forall|n: usize, w: usize, done: bool|
            #[trigger] inbound_accepts(
                InboundStage::AwaitRoom { nbytes: n, stored: w },
                PumpEvent::Woken { done },
            ),
        forall|n: usize, w: usize, c: usize|
            w <= n && c <= n - w ==> #[trigger] inbound_accepts(
                InboundStage::AwaitStore { nbytes: n, stored: w },
                PumpEvent::Stored { count: c },
            ),
        forall|n: usize, w: usize, set: bool|
            #[trigger] inbound_accepts(
                InboundStage::AwaitReadiness { nbytes: n, stored: w },
                PumpEvent::ReadinessQueried { set },
            ),
        forall|n: usize, w: usize, error: Option<String>|
            #[trigger] inbound_accepts(
                InboundStage::AwaitSignal { nbytes: n, stored: w },
                PumpEvent::ReadinessSet { error },
            ),
{
}

/// Every event that can happen while an outbound worker waits is one it
/// expects: any outcome of a readiness change, either stop flag, either
/// wake-up, any take of up to a chunk, either readiness answer, any failed
/// pipe write and any pipe write of up to the rest of the chunk.
pub proof fn law_outbound_expects_every_outcome()
    ensures
        forall|error: Option<String>|
            #[trigger] outbound_accepts(OutboundStage::Announcing, PumpEvent::ReadinessSet { error }),
        forall|done: bool|
            #[trigger] outbound_accepts(OutboundStage::Idle, PumpEvent::DoneFlag { done }),
        forall|done: bool|
            #[trigger] outbound_accepts(OutboundStage::AwaitData, PumpEvent::Woken { done }),
        forall|c: usize|
            c <= CHUNK_LEN ==> #[trigger] outbound_accepts(
                OutboundStage::AwaitTake,
                PumpEvent::Taken { count: c },
            ),
        forall|n: usize, set: bool|
            #[trigger] outbound_accepts(
                OutboundStage::AwaitReadiness { nbytes: n },
                PumpEvent::ReadinessQueried { set },
            ),
        forall|n: usize, error: Option<String>|
            #[trigger] outbound_accepts(
                OutboundStage::AwaitSignal { nbytes: n },
                PumpEvent::ReadinessSet { error },
            ),
        forall|n: usize, w: usize, m: String|
            #[trigger] outbound_accepts(
                OutboundStage::Flushing { nbytes: n, sent: w },
                PumpEvent::PipeWrote { result: Err(m) },
            ),
        forall|n: usize, w: usize, k: usize|
            w <= n && k <= n - w ==> #[trigger] outbound_accepts(
                OutboundStage::Flushing { nbytes: n, sent: w },
                PumpEvent::PipeWrote { result: Ok(k) },
            ),
{
}

/// An inbound worker stops exactly when told to or when something failed:
/// a stop flag or a wake-up that asks for a stop ends it quietly, a failed
/// pipe read or readiness change ends it with that failure's text reported,
/// and no other event ends it.
pub proof fn law_inbound_stops_only_when_told(s: InboundStage, e: PumpEvent)
    requires
        inbound_fits(s),
        inbound_accepts(s, e),
    ensures
        (e == PumpEvent::DoneFlag { done: true } || e == PumpEvent::Woken { done: true })
            ==> inbound_next(s, e) == (InboundStage::Exited, PumpAction::Exit),
        forall|m: String|
            e == (PumpEvent::PipeRead { result: Err(m) }) || e == (PumpEvent::ReadinessSet {
                error: Some(m),
            }) ==> #[trigger] inbound_next(s, e) == (InboundStage::Exited, PumpAction::Report(m)),
        inbound_next(s, e).0 is Exited ==> (e == PumpEvent::DoneFlag { done: true } || e
            == PumpEvent::Woken { done: true } || e matches PumpEvent::PipeRead { result: Err(_) }
            || e matches PumpEvent::ReadinessSet { error: Some(_) }),
{
}

/// An outbound worker stops exactly when told to or when something failed:
/// a stop flag or a wake-up that asks for a stop ends it quietly, a failed
/// pipe write or readiness change ends it with that failure's text
/// reported, and no other event ends it.
pub proof fn law_outbound_stops_only_when_told(s: OutboundStage, e: PumpEvent)
    requires
        outbound_fits(s),
        outbound_accepts(s, e),
    ensures
        (e == PumpEvent::DoneFlag { done: true } || e == PumpEvent::Woken { done: true })
            ==> outbound_next(s, e) == (OutboundStage::Exited, PumpAction::Exit),
        forall|m: String|
            e == (PumpEvent::PipeWrote { result: Err(m) }) || e == (PumpEvent::ReadinessSet {
                error: Some(m),
            }) ==> #[trigger] outbound_next(s, e) == (OutboundStage::Exited, PumpAction::Report(m)),
        outbound_next(s, e).0 is Exited ==> (e == PumpEvent::DoneFlag { done: true } || e
            == PumpEvent::Woken { done: true } || e matches PumpEvent::PipeWrote { result: Err(_) }
            || e matches PumpEvent::ReadinessSet { error: Some(_) }),
{
}

/// The inbound worker's loop: not told to stop, it reads the pipe; a read
/// of some bytes has it wait for room to store all of them from the first;
/// woken, it stores the rest of the chunk; a store advances the stored count
/// by what the ring took and has it look at the readiness; it raises the
/// readiness exactly when it was not readable; and then it waits for room
/// while bytes of the chunk remain, or goes back to the top of the loop.
pub proof fn law_inbound_loop(n: usize, w: usize, c: usize, set: bool)
    requires
        w <= n <= CHUNK_LEN,
    ensures
        inbound_next(InboundStage::Idle, PumpEvent::DoneFlag { done: false }) == (
            InboundStage::AwaitPipe,
            PumpAction::ReadPipe,
        ),
        inbound_next(InboundStage::AwaitPipe, PumpEvent::PipeRead { result: Ok(n) }) == if n
            == 0 {
            (InboundStage::Idle, PumpAction::CheckDone)
        } else {
            (InboundStage::AwaitRoom { nbytes: n, stored: 0 }, PumpAction::WaitForRoom)
        },
        w < n ==> inbound_next(
            InboundStage::AwaitRoom { nbytes: n, stored: w },
            PumpEvent::Woken { done: false },
        ) == (
            InboundStage::AwaitStore { nbytes: n, stored: w },
            PumpAction::Store { from: w, to: n },
        ),
        c <= n - w ==> inbound_next(
            InboundStage::AwaitStore { nbytes: n, stored: w },
            PumpEvent::Stored { count: c },
        ) == (
            InboundStage::AwaitReadiness { nbytes: n, stored: (w + c) as usize },
            PumpAction::QueryReadiness,
        ),
        ({
            let next_chunk_step = if w < n {
                (InboundStage::AwaitRoom { nbytes: n, stored: w }, PumpAction::WaitForRoom)
            } else {
                (InboundStage::Idle, PumpAction::CheckDone)
            };
            &&& inbound_next(
                InboundStage::AwaitReadiness { nbytes: n, stored: w },
                PumpEvent::ReadinessQueried { set },
            ) == if set {
                next_chunk_step
            } else {
                (
                    InboundStage::AwaitSignal { nbytes: n, stored: w },
                    PumpAction::SetReadiness(Readiness::Readable),
                )
            }
            &&& inbound_next(
                InboundStage::AwaitSignal { nbytes: n, stored: w },
                PumpEvent::ReadinessSet { error: None },
            ) == next_chunk_step
        }),
{
}

/// The outbound worker's loop: a successful announcement takes it to the
/// top of the loop; not told to stop, it waits for bytes; woken, it takes
/// what the ring holds; a take has it look at the readiness; it raises the
/// readiness exactly when it was not writable; then it writes the chunk to
/// the pipe from its first byte, each short write resuming at the first
/// byte the pipe did not take, and goes back to the top once all are
/// written.
pub proof fn law_outbound_loop(n: usize, w: usize, k: usize, set: bool)
    requires
        w <= n <= CHUNK_LEN,
    ensures
        outbound_next(OutboundStage::Announcing, PumpEvent::ReadinessSet { error: None }) == (
            OutboundStage::Idle,
            PumpAction::CheckDone,
        ),
        outbound_next(OutboundStage::Idle, PumpEvent::DoneFlag { done: false }) == (
            OutboundStage::AwaitData,
            PumpAction::WaitForData,
        ),
        outbound_next(OutboundStage::AwaitData, PumpEvent::Woken { done: false }) == (
            OutboundStage::AwaitTake,
            PumpAction::Take,
        ),
        outbound_next(OutboundStage::AwaitTake, PumpEvent::Taken { count: n }) == (
            OutboundStage::AwaitReadiness { nbytes: n },
            PumpAction::QueryReadiness,
        ),
        ({
            let write_chunk = if 0 < n {
                (
                    OutboundStage::Flushing { nbytes: n, sent: 0 },
                    PumpAction::WritePipe { from: 0, to: n },
                )
            } else {
                (OutboundStage::Idle, PumpAction::CheckDone)
            };
            &&& outbound_next(
                OutboundStage::AwaitReadiness { nbytes: n },
                PumpEvent::ReadinessQueried { set },
            ) == if set {
                write_chunk
            } else {
                (
                    OutboundStage::AwaitSignal { nbytes: n },
                    PumpAction::SetReadiness(Readiness::Writable),
                )
            }
            &&& outbound_next(
                OutboundStage::AwaitSignal { nbytes: n },
                PumpEvent::ReadinessSet { error: None },
            ) == write_chunk
        }),
        w < n && k <= n - w ==> outbound_next(
            OutboundStage::Flushing { nbytes: n, sent: w },
            PumpEvent::PipeWrote { result: Ok(k) },
        ) == if w + k < n {
            (
                OutboundStage::Flushing { nbytes: n, sent: (w + k) as usize },
                PumpAction::WritePipe { from: (w + k) as usize, to: n },
            )
        } else {
            (OutboundStage::Idle, PumpAction::CheckDone)
        },
{
}

} // verus!
