//! The decisions a pipe handle takes in one read or write call: refuse the
//! call when its worker is gone or has failed, move bytes through the ring,
//! keep the advertised readiness true to the ring, and wake the worker.

use vstd::prelude::*;

verus! {

/// Which end of the pipe a handle serves: a read handle drains the ring that
/// its worker fills from the pipe, a write handle fills the ring that its
/// worker drains into the pipe.
#[derive(Debug, Clone, Copy, PartialEq, Eq)]
pub enum Side {
    Read,
    Write,
}

/// The readiness a handle advertises to the poll it is registered with.
#[derive(Debug, Clone, Copy, PartialEq, Eq)]
pub enum Readiness {
    Empty,
    Readable,
    Writable,
}

/// What a look into the worker's error channel found.
#[derive(Debug, PartialEq, Eq)]
pub enum ErrorPoll {
    /// The worker failed and sent this text.
    Message(String),
    /// The worker is gone without a word.
    Disconnected,
    /// Nothing was sent.
    Quiet,
}

/// How far a call has come.
#[derive(Debug, PartialEq, Eq)]
pub enum CallStage {
    AwaitErrors,
    AwaitTransfer,
    AwaitClear { nbytes: usize },
    AwaitRecheck { nbytes: usize },
    AwaitRestore { nbytes: usize },
    AwaitNotify { nbytes: usize },
    Done,
}

/// A call in progress on a handle of the given side.
#[derive(Debug, PartialEq, Eq)]
pub struct HandleCall {
    pub side: Side,
    pub stage: CallStage,
}

/// What the caller of the machine reports back after an action.
#[derive(Debug, PartialEq, Eq)]
pub enum CallEvent {
    /// Outcome of the look into the error channel.
    ErrorsPolled(ErrorPoll),
    /// The ring moved `nbytes` bytes; `ring_blocked` tells whether the ring
    /// was then empty (read side) or full (write side).
    Transferred { nbytes: usize, ring_blocked: bool },
    /// Whether setting the readiness succeeded.
    ReadinessSet { ok: bool },
    /// Whether the ring was still empty (read side) or full (write side).
    Rechecked { ring_blocked: bool },
    /// The worker was woken.
    Notified,
}

/// What the machine asks its caller to do next.
#[derive(Debug, PartialEq, Eq)]
pub enum CallAction {
    /// Look into the worker's error channel without blocking.
    PollErrors,
    /// Fail the call with a broken-pipe error carrying `message` (or no text),
    /// after joining the worker when `join_worker` holds.
    BrokenPipe { join_worker: bool, message: Option<String> },
    /// Move bytes between the caller's buffer and the ring.
    Transfer,
    /// Advertise this readiness.
    SetReadiness(Readiness),
    /// Look at the ring once more.
    Recheck,
    /// Wake the worker, under the lock it waits with.
    NotifyWorker,
    /// Fail the call with the error that setting the readiness gave.
    PassIoError,
    /// Complete the call with this many bytes moved.
    Return(usize),
}

/// The readiness that says a handle of this side can make progress.
pub open spec fn open_readiness(side: Side) -> Readiness {
    match side {
        Side::Read => Readiness::Readable,
        Side::Write => Readiness::Writable,
    }
}

/// Whether a call in this stage expects this event.
pub open spec fn call_accepts(c: HandleCall, e: CallEvent) -> bool {
    match (c.stage, e) {
        (CallStage::AwaitErrors, CallEvent::ErrorsPolled(_)) => true,
        (CallStage::AwaitTransfer, CallEvent::Transferred { .. }) => true,
        (CallStage::AwaitClear { .. }, CallEvent::ReadinessSet { .. }) => true,
        (CallStage::AwaitRecheck { .. }, CallEvent::Rechecked { .. }) => true,
        (CallStage::AwaitRestore { .. }, CallEvent::ReadinessSet { .. }) => true,
        (CallStage::AwaitNotify { .. }, CallEvent::Notified) => true,
        _ => false,
    }
}

/// The first stage and action of a call.
pub open spec fn call_start(side: Side, worker_attached: bool) -> (HandleCall, CallAction) {
    if worker_attached {
        (HandleCall { side, stage: CallStage::AwaitErrors }, CallAction::PollErrors)
    } else {
        (
            HandleCall { side, stage: CallStage::Done },
            CallAction::BrokenPipe { join_worker: false, message: None },
        )
    }
}

/// The stage and action that follow an event the call expects.
pub open spec fn call_next(c: HandleCall, e: CallEvent) -> (HandleCall, CallAction) {
    let side = c.side;
    match (c.stage, e) {
        (CallStage::AwaitErrors, CallEvent::ErrorsPolled(ErrorPoll::Message(m))) => (
            HandleCall { side, stage: CallStage::Done },
            CallAction::BrokenPipe { join_worker: true, message: Some(m) },
        ),
        (CallStage::AwaitErrors, CallEvent::ErrorsPolled(ErrorPoll::Disconnected)) => (
            HandleCall { side, stage: CallStage::Done },
            CallAction::BrokenPipe { join_worker: false, message: None },
        ),
        (CallStage::AwaitErrors, CallEvent::ErrorsPolled(ErrorPoll::Quiet)) => (
            HandleCall { side, stage: CallStage::AwaitTransfer },
            CallAction::Transfer,
        ),
        (CallStage::AwaitTransfer, CallEvent::Transferred { nbytes, ring_blocked }) => {
            if ring_blocked {
                (
                    HandleCall { side, stage: CallStage::AwaitClear { nbytes } },
                    CallAction::SetReadiness(Readiness::Empty),
                )
            } else {
                (
                    HandleCall { side, stage: CallStage::AwaitNotify { nbytes } },
                    CallAction::NotifyWorker,
                )
            }
        },
        (CallStage::AwaitClear { nbytes }, CallEvent::ReadinessSet { ok }) => {
            if ok {
                (
                    HandleCall { side, stage: CallStage::AwaitRecheck { nbytes } },
                    CallAction::Recheck,
                )
            } else {
                (HandleCall { side, stage: CallStage::Done }, CallAction::PassIoError)
            }
        },
        (CallStage::AwaitRecheck { nbytes }, CallEvent::Rechecked { ring_blocked }) => {
            if ring_blocked {
                (
                    HandleCall { side, stage: CallStage::AwaitNotify { nbytes } },
                    CallAction::NotifyWorker,
                )
            } else {
                (
                    HandleCall { side, stage: CallStage::AwaitRestore { nbytes } },
                    CallAction::SetReadiness(open_readiness(side)),
                )
            }
        },
        (CallStage::AwaitRestore { nbytes }, CallEvent::ReadinessSet { ok }) => {
            if ok {
                (
                    HandleCall { side, stage: CallStage::AwaitNotify { nbytes } },
                    CallAction::NotifyWorker,
                )
            } else {
                (HandleCall { side, stage: CallStage::Done }, CallAction::PassIoError)
            }
        },
        (CallStage::AwaitNotify { nbytes }, CallEvent::Notified) => (
            HandleCall { side, stage: CallStage::Done },
            CallAction::Return(nbytes),
        ),
        _ => (c, CallAction::PollErrors),
    }
}

impl HandleCall {
    /// Starts a call on a handle of this side; `worker_attached` tells
    /// whether the handle still has its worker.
    pub fn begin(side: Side, worker_attached: bool) -> (start: (HandleCall, CallAction))
        ensures
            start == call_start(side, worker_attached),
    {
        if worker_attached {
            (HandleCall { side, stage: CallStage::AwaitErrors }, CallAction::PollErrors)
        } else {
            (
                HandleCall { side, stage: CallStage::Done },
                CallAction::BrokenPipe { join_worker: false, message: None },
            )
        }
    }

    /// Whether the call expects this event now.
    pub fn accepts(&self, e: &CallEvent) -> (b: bool)
        ensures
            b == call_accepts(*self, *e),
    {
        match (&self.stage, e) {
            (CallStage::AwaitErrors, CallEvent::ErrorsPolled(_)) => true,
            (CallStage::AwaitTransfer, CallEvent::Transferred { .. }) => true,
            (CallStage::AwaitClear { .. }, CallEvent::ReadinessSet { .. }) => true,
            (CallStage::AwaitRecheck { .. }, CallEvent::Rechecked { .. }) => true,
            (CallStage::AwaitRestore { .. }, CallEvent::ReadinessSet { .. }) => true,
            (CallStage::AwaitNotify { .. }, CallEvent::Notified) => true,
            _ => false,
        }
    }

    /// Takes the call one step further on an event it expects.
    pub fn step(self, e: CallEvent) -> (next: (HandleCall, CallAction))
        requires
            call_accepts(self, e),
        ensures
            next == call_next(self, e),
    {
        let side = self.side;
        match (self.stage, e) {
            (CallStage::AwaitErrors, CallEvent::ErrorsPolled(poll)) => match poll {
                ErrorPoll::Message(m) => (
                    HandleCall { side, stage: CallStage::Done },
                    CallAction::BrokenPipe { join_worker: true, message: Some(m) },
                ),
                ErrorPoll::Disconnected => (
                    HandleCall { side, stage: CallStage::Done },
                    CallAction::BrokenPipe { join_worker: false, message: None },
                ),
                ErrorPoll::Quiet => (
                    HandleCall { side, stage: CallStage::AwaitTransfer },
                    CallAction::Transfer,
                ),
            },
            (CallStage::AwaitTransfer, CallEvent::Transferred { nbytes, ring_blocked }) => {
                if ring_blocked {
                    (
                        HandleCall { side, stage: CallStage::AwaitClear { nbytes } },
                        CallAction::SetReadiness(Readiness::Empty),
                    )
                } else {
                    (
                        HandleCall { side, stage: CallStage::AwaitNotify { nbytes } },
                        CallAction::NotifyWorker,
                    )
                }
            },
            (CallStage::AwaitClear { nbytes }, CallEvent::ReadinessSet { ok }) => {
                if ok {
                    (
                        HandleCall { side, stage: CallStage::AwaitRecheck { nbytes } },
                        CallAction::Recheck,
                    )
                } else {
                    (HandleCall { side, stage: CallStage::Done }, CallAction::PassIoError)
                }
            },
            (CallStage::AwaitRecheck { nbytes }, CallEvent::Rechecked { ring_blocked }) => {
                if ring_blocked {
                    (
                        HandleCall { side, stage: CallStage::AwaitNotify { nbytes } },
                        CallAction::NotifyWorker,
                    )
                } else {
                    let restore = match side {
                        Side::Read => Readiness::Readable,
                        Side::Write => Readiness::Writable,
                    };
                    (
                        HandleCall { side, stage: CallStage::AwaitRestore { nbytes } },
                        CallAction::SetReadiness(restore),
                    )
                }
            },
            (CallStage::AwaitRestore { nbytes }, CallEvent::ReadinessSet { ok }) => {
                if ok {
                    (
                        HandleCall { side, stage: CallStage::AwaitNotify { nbytes } },
                        CallAction::NotifyWorker,
                    )
                } else {
                    (HandleCall { side, stage: CallStage::Done }, CallAction::PassIoError)
                }
            },
            (CallStage::AwaitNotify { nbytes }, CallEvent::Notified) => (
                HandleCall { side, stage: CallStage::Done },
                CallAction::Return(nbytes),
            ),
            (stage, _) => (HandleCall { side, stage }, CallAction::PollErrors),
        }
    }
}

/// Whether a call starting at `c` expects each event of `evs` in turn.
pub open spec fn call_accepts_all(c: HandleCall, evs: Seq<CallEvent>) -> bool
    decreases evs.len(),
{
    evs.len() == 0 || (call_accepts(c, evs[0]) && call_accepts_all(
        call_next(c, evs[0]).0,
        evs.drop_first(),
    ))
}

/// The actions a call starting at `c` asks for on the events `evs`.
pub open spec fn call_trace(c: HandleCall, evs: Seq<CallEvent>) -> Seq<CallAction>
    decreases evs.len(),
{
    if evs.len() == 0 {
        Seq::empty()
    } else {
        seq![call_next(c, evs[0]).1] + call_trace(call_next(c, evs[0]).0, evs.drop_first())
    }
}

/// All the actions of a call on a handle of `side` that starts with
/// `worker_attached` and then sees the events `evs`.
pub open spec fn call_actions(side: Side, worker_attached: bool, evs: Seq<CallEvent>) -> Seq<
    CallAction,
> {
    seq![call_start(side, worker_attached).1] + call_trace(
        call_start(side, worker_attached).0,
        evs,
    )
}

/// Whether an action ends the call.
pub open spec fn is_final(a: CallAction) -> bool {
    a is BrokenPipe || a is PassIoError || a is Return
}

/// The readiness last advertised after the actions `acts`, given that `r`
/// was the last one before them.
pub open spec fn advertised_after(r: Option<Readiness>, acts: Seq<CallAction>) -> Option<
    Readiness,
>
    decreases acts.len(),
{
    if acts.len() == 0 {
        r
    } else {
        let r1 = match acts[0] {
            CallAction::SetReadiness(x) => Some(x),
            _ => r,
        };
        advertised_after(r1, acts.drop_first())
    }
}

/// What the events `evs` last reported of the ring being blocked (empty
/// for a reader, full for a writer), given that `b` was the last report
/// before them.
pub open spec fn blocked_after(b: Option<bool>, evs: Seq<CallEvent>) -> Option<bool>
    decreases evs.len(),
{
    if evs.len() == 0 {
        b
    } else {
        let b1 = match evs[0] {
            CallEvent::Transferred { ring_blocked, .. } => Some(ring_blocked),
            CallEvent::Rechecked { ring_blocked } => Some(ring_blocked),
            _ => b,
        };
        blocked_after(b1, evs.drop_first())
    }
}

/// What a call at stage `c` has advertised (`r`) and last seen of the ring
/// (`b`) fits that stage.
pub open spec fn call_history_fits(c: HandleCall, r: Option<Readiness>, b: Option<bool>) -> bool {
    match c.stage {
        CallStage::AwaitErrors | CallStage::AwaitTransfer => r is None,
        CallStage::AwaitClear { .. } | CallStage::AwaitRecheck { .. } => r == Some(
            Readiness::Empty,
        ) && b == Some(true),
        CallStage::AwaitRestore { .. } => r == Some(open_readiness(c.side)) && b == Some(false),
        CallStage::AwaitNotify { .. } => (r == Some(Readiness::Empty) <==> b == Some(true)),
        CallStage::Done => true,
    }
}

proof fn lemma_call_final_is_last(c: HandleCall, evs: Seq<CallEvent>)
    requires
        call_accepts_all(c, evs),
    ensures
        c.stage is Done ==> evs.len() == 0,
        forall|i: int|
            0 <= i < call_trace(c, evs).len() - 1 ==> !is_final(#[trigger] call_trace(c, evs)[i]),
        call_trace(c, evs).len() == evs.len(),
    decreases evs.len(),
{
    if evs.len() > 0 {
        let (c2, a) = call_next(c, evs[0]);
        let rest = evs.drop_first();
        lemma_call_final_is_last(c2, rest);
        let t = call_trace(c, evs);
        assert(t =~= seq![a] + call_trace(c2, rest));
        assert(is_final(a) ==> c2.stage is Done);
        assert forall|i: int| 0 <= i < t.len() - 1 implies !is_final(#[trigger] t[i]) by {
            if i > 0 {
                assert(t[i] == call_trace(c2, rest)[i - 1]);
            }
        }
    }
}

proof fn lemma_call_notify_before_return(c: HandleCall, evs: Seq<CallEvent>)
    requires
        call_accepts_all(c, evs),
    ensures
        forall|i: int|
            0 <= i < call_trace(c, evs).len() && (#[trigger] call_trace(c, evs)[i]) is Return
                ==> if i == 0 {
                c.stage is AwaitNotify
            } else {
                call_trace(c, evs)[i - 1] is NotifyWorker
            },
    decreases evs.len(),
{
    if evs.len() > 0 {
        let (c2, a) = call_next(c, evs[0]);
        let rest = evs.drop_first();
        lemma_call_notify_before_return(c2, rest);
        let t = call_trace(c, evs);
        assert(t =~= seq![a] + call_trace(c2, rest));
        assert(c2.stage is AwaitNotify ==> a is NotifyWorker);
        assert forall|i: int| 0 <= i < t.len() && (#[trigger] t[i]) is Return implies if i == 0 {
            c.stage is AwaitNotify
        } else {
            t[i - 1] is NotifyWorker
        } by {
            if i > 0 {
                assert(t[i] == call_trace(c2, rest)[i - 1]);
                if i > 1 {
                    assert(t[i - 1] == call_trace(c2, rest)[i - 2]);
                }
            }
        }
    }
}

proof fn lemma_call_readiness(
    c: HandleCall,
    evs: Seq<CallEvent>,
    r: Option<Readiness>,
    b: Option<bool>,
)
    requires
        call_accepts_all(c, evs),
        call_history_fits(c, r, b),
        call_trace(c, evs).len() > 0,
        call_trace(c, evs).last() is Return,
    ensures
        advertised_after(r, call_trace(c, evs)) == Some(Readiness::Empty) <==> blocked_after(
            b,
            evs,
        ) == Some(true),
    decreases evs.len(),
{
    let (c2, a) = call_next(c, evs[0]);
    let rest = evs.drop_first();
    let t = call_trace(c, evs);
    assert(t.drop_first() =~= call_trace(c2, rest));
    let r1 = match a {
        CallAction::SetReadiness(x) => Some(x),
        _ => r,
    };
    let b1 = match evs[0] {
        CallEvent::Transferred { ring_blocked, .. } => Some(ring_blocked),
        CallEvent::Rechecked { ring_blocked } => Some(ring_blocked),
        _ => b,
    };
    assert(advertised_after(r, t) == advertised_after(r1, call_trace(c2, rest)));
    assert(blocked_after(b, evs) == blocked_after(b1, rest));
    if rest.len() == 0 {
        assert(t =~= seq![a]);
        assert(a is Return);
        assert(call_trace(c2, rest) =~= Seq::<CallAction>::empty());
        assert(rest =~= Seq::<CallEvent>::empty());
    } else {
        assert(t =~= seq![a] + call_trace(c2, rest));
        lemma_call_final_is_last(c2, rest);
        assert(call_history_fits(c2, r1, b1));
        assert(call_trace(c2, rest).last() == t.last());
        lemma_call_readiness(c2, rest, r1, b1);
    }
}

/// A call completes with `Return` only right after it asked for the worker
/// to be woken, so a successful read or write never leaves the worker
/// sleeping on a ring that the call has just drained or filled.
pub proof fn law_call_wakes_worker_before_returning(
    side: Side,
    worker_attached: bool,
    evs: Seq<CallEvent>,
)
    requires
        call_accepts_all(call_start(side, worker_attached).0, evs),
    ensures
        forall|i: int|
            0 <= i < call_actions(side, worker_attached, evs).len() && (#[trigger] call_actions(
                side,
                worker_attached,
                evs,
            )[i]) is Return ==> i > 0 && call_actions(side, worker_attached, evs)[i
                - 1] is NotifyWorker,
{
    let c0 = call_start(side, worker_attached).0;
    let acts = call_actions(side, worker_attached, evs);
    lemma_call_notify_before_return(c0, evs);
    assert forall|i: int| 0 <= i < acts.len() && (#[trigger] acts[i]) is Return implies i > 0
        && acts[i - 1] is NotifyWorker by {
        if i > 0 {
            assert(acts[i] == call_trace(c0, evs)[i - 1]);
            if i > 1 {
                assert(acts[i - 1] == call_trace(c0, evs)[i - 2]);
            }
        }
    }
}

/// A call answers once: a failure or a completion is always its last
/// action, and a finished call expects no further event.
pub proof fn law_call_answers_once(side: Side, worker_attached: bool, evs: Seq<CallEvent>)
    requires
        call_accepts_all(call_start(side, worker_attached).0, evs),
    ensures
        forall|i: int|
            0 <= i < call_actions(side, worker_attached, evs).len() - 1 ==> !is_final(
                #[trigger] call_actions(side, worker_attached, evs)[i],
            ),
{
    let c0 = call_start(side, worker_attached).0;
    let acts = call_actions(side, worker_attached, evs);
    lemma_call_final_is_last(c0, evs);
    assert forall|i: int| 0 <= i < acts.len() - 1 implies !is_final(#[trigger] acts[i]) by {
        if i > 0 {
            assert(acts[i] == call_trace(c0, evs)[i - 1]);
        } else {
            assert(c0.stage is Done ==> evs.len() == 0);
        }
    }
}

/// A call that completes with `Return` leaves the readiness it advertises
/// empty exactly when its last look at the ring found it empty (reader) or
/// full (writer): a handle never leaves itself marked idle while the ring
/// could move bytes, and a call that drained (reader) or filled (writer)
/// the ring leaves it marked idle unless the other side changed the ring
/// meanwhile.
pub proof fn law_call_readiness_follows_ring(
    side: Side,
    worker_attached: bool,
    evs: Seq<CallEvent>,
)
    requires
        call_accepts_all(call_start(side, worker_attached).0, evs),
        call_actions(side, worker_attached, evs).last() is Return,
    ensures
        advertised_after(None, call_actions(side, worker_attached, evs)) == Some(
            Readiness::Empty,
        ) <==> blocked_after(None, evs) == Some(true),
{
    let (c0, a0) = call_start(side, worker_attached);
    let acts = call_actions(side, worker_attached, evs);
    assert(acts.drop_first() =~= call_trace(c0, evs));
    assert(advertised_after(None, acts) == advertised_after(None, call_trace(c0, evs)));
    if worker_attached {
        assert(call_trace(c0, evs).len() > 0);
        assert(call_trace(c0, evs).last() == acts.last());
        lemma_call_readiness(c0, evs, None, None);
    }
}

/// The byte count the events `evs` last reported as moved by the ring,
/// given that `t` was the last one before them.
pub open spec fn transferred_after(t: Option<usize>, evs: Seq<CallEvent>) -> Option<usize>
    decreases evs.len(),
{
    if evs.len() == 0 {
        t
    } else {
        let t1 = match evs[0] {
            CallEvent::Transferred { nbytes, .. } => Some(nbytes),
            _ => t,
        };
        transferred_after(t1, evs.drop_first())
    }
}

/// The byte count a call at stage `c` carries is the one last reported (`t`).
pub open spec fn call_count_fits(c: HandleCall, t: Option<usize>) -> bool {
    match c.stage {
        CallStage::AwaitClear { nbytes } | CallStage::AwaitRecheck { nbytes }
        | CallStage::AwaitRestore { nbytes } | CallStage::AwaitNotify { nbytes } => t == Some(
            nbytes,
        ),
        _ => true,
    }
}

proof fn lemma_call_count(c: HandleCall, evs: Seq<CallEvent>, t: Option<usize>, n: usize)
    requires
        call_accepts_all(c, evs),
        call_count_fits(c, t),
        call_trace(c, evs).len() > 0,
        call_trace(c, evs).last() == CallAction::Return(n),
    ensures
        transferred_after(t, evs) == Some(n),
    decreases evs.len(),
{
    let (c2, a) = call_next(c, evs[0]);
    let rest = evs.drop_first();
    let t1 = match evs[0] {
        CallEvent::Transferred { nbytes, .. } => Some(nbytes),
        _ => t,
    };
    assert(transferred_after(t, evs) == transferred_after(t1, rest));
    assert(call_count_fits(c2, t1));
    if rest.len() == 0 {
        assert(call_trace(c2, rest) =~= Seq::<CallAction>::empty());
        assert(call_trace(c, evs) =~= seq![a]);
        assert(rest =~= Seq::<CallEvent>::empty());
    } else {
        let t_all = call_trace(c, evs);
        assert(t_all =~= seq![a] + call_trace(c2, rest));
        lemma_call_final_is_last(c2, rest);
        assert(call_trace(c2, rest).last() == t_all.last());
        lemma_call_count(c2, rest, t1, n);
    }
}

/// A call that completes with `Return(n)` reports exactly the number of
/// bytes that the ring moved for it.
pub proof fn law_call_returns_moved_count(
    side: Side,
    worker_attached: bool,
    evs: Seq<CallEvent>,
    n: usize,
)
    requires
        call_accepts_all(call_start(side, worker_attached).0, evs),
        call_actions(side, worker_attached, evs).last() == CallAction::Return(n),
    ensures
        transferred_after(None, evs) == Some(n),
{
    let (c0, a0) = call_start(side, worker_attached);
    let acts = call_actions(side, worker_attached, evs);
    if worker_attached {
        assert(acts =~= seq![a0] + call_trace(c0, evs));
        if evs.len() == 0 {
            assert(acts =~= seq![a0]);
        }
        assert(call_trace(c0, evs).len() > 0);
        assert(call_trace(c0, evs).last() == acts.last());
        lemma_call_count(c0, evs, None, n);
    } else {
        assert(acts =~= seq![a0] + call_trace(c0, evs));
        if evs.len() > 0 {
            assert(!call_accepts(c0, evs[0]));
        }
        assert(acts =~= seq![a0]);
    }
}

/// Whether a handle still has its worker after a call that asked for the
/// action `last`: a failure that joins the worker takes it away, nothing
/// else does.
pub open spec fn keeps_worker(worker_attached: bool, last: CallAction) -> bool {
    worker_attached && !(last matches CallAction::BrokenPipe { join_worker: true, .. })
}

/// Whether a handle still has its worker after asking for the action `last`.
pub fn keeps_worker_after(worker_attached: bool, last: &CallAction) -> (b: bool)
    ensures
        b == keeps_worker(worker_attached, *last),
{
    match last {
        CallAction::BrokenPipe { join_worker, .. } => worker_attached && !*join_worker,
        _ => worker_attached,
    }
}

/// A handle broken by a worker failure stays broken: a call that failed and
/// joined the worker leaves the handle without a worker, and every later
/// call on a handle without a worker fails at once with a broken-pipe error
/// carrying no text, moves no byte and keeps the handle without a worker.
pub proof fn law_broken_handle_stays_broken(
    side: Side,
    worker_attached: bool,
    evs: Seq<CallEvent>,
    later: Seq<CallEvent>,
)
    requires
        call_accepts_all(call_start(side, worker_attached).0, evs),
        call_actions(side, worker_attached, evs).last() matches CallAction::BrokenPipe {
            join_worker: true,
            ..
        },
        call_accepts_all(call_start(side, false).0, later),
    ensures
        !keeps_worker(worker_attached, call_actions(side, worker_attached, evs).last()),
        call_actions(side, false, later) == seq![
            CallAction::BrokenPipe { join_worker: false, message: None },
        ],
        !keeps_worker(false, call_actions(side, false, later).last()),
{
    let c0 = call_start(side, false).0;
    if later.len() > 0 {
        assert(!call_accepts(c0, later[0]));
    }
    assert(later =~= Seq::<CallEvent>::empty());
    assert(call_actions(side, false, later) =~= seq![
        CallAction::BrokenPipe { join_worker: false, message: None },
    ]);
}

/// The stage a call starting at `c` reaches after the events `evs`.
pub open spec fn call_reached(c: HandleCall, evs: Seq<CallEvent>) -> HandleCall
    decreases evs.len(),
{
    if evs.len() == 0 {
        c
    } else {
        call_reached(call_next(c, evs[0]).0, evs.drop_first())
    }
}

/// Every event that can happen while a call waits is one it expects: any
/// outcome of the error poll, any count and any ring state from the
/// transfer, success or failure of a readiness change, either outcome of
/// the recheck, and the wake-up.
pub proof fn law_call_expects_every_outcome(side: Side)
    ensures
        forall|p: ErrorPoll|
            #[trigger] call_accepts(
                HandleCall { side, stage: CallStage::AwaitErrors },
                CallEvent::ErrorsPolled(p),
            ),
        forall|n: usize, b: bool|
            #[trigger] call_accepts(
                HandleCall { side, stage: CallStage::AwaitTransfer },
                CallEvent::Transferred { nbytes: n, ring_blocked: b },
            ),
        forall|n: usize, ok: bool|
            #[trigger] call_accepts(
                HandleCall { side, stage: CallStage::AwaitClear { nbytes: n } },
                CallEvent::ReadinessSet { ok },
            ),
        forall|n: usize, ok: bool|
            #[trigger] call_accepts(
                HandleCall { side, stage: CallStage::AwaitRestore { nbytes: n } },
                CallEvent::ReadinessSet { ok },
            ),
        forall|n: usize, b: bool|
            #[trigger] call_accepts(
                HandleCall { side, stage: CallStage::AwaitRecheck { nbytes: n } },
                CallEvent::Rechecked { ring_blocked: b },
            ),
        forall|n: usize|
            #[trigger] call_accepts(
                HandleCall { side, stage: CallStage::AwaitNotify { nbytes: n } },
                CallEvent::Notified,
            ),
{
}

/// A call that finds a worker failure fails at once with the worker's text
/// and joins the worker; one that finds the worker gone fails at once with
/// no text. Neither moves a byte.
pub proof fn law_call_reports_worker_failure(side: Side, m: String)
    ensures
        call_accepts_all(
            call_start(side, true).0,
            seq![CallEvent::ErrorsPolled(ErrorPoll::Message(m))],
        ),
        call_actions(side, true, seq![CallEvent::ErrorsPolled(ErrorPoll::Message(m))]) == seq![
            CallAction::PollErrors,
            CallAction::BrokenPipe { join_worker: true, message: Some(m) },
        ],
        call_actions(side, true, seq![CallEvent::ErrorsPolled(ErrorPoll::Disconnected)]) == seq![
            CallAction::PollErrors,
            CallAction::BrokenPipe { join_worker: false, message: None },
        ],
{
    let e1 = seq![CallEvent::ErrorsPolled(ErrorPoll::Message(m))];
    let e2 = seq![CallEvent::ErrorsPolled(ErrorPoll::Disconnected)];
    assert(e1.drop_first() =~= Seq::<CallEvent>::empty());
    assert(e2.drop_first() =~= Seq::<CallEvent>::empty());
    reveal_with_fuel(call_trace, 2);
    reveal_with_fuel(call_accepts_all, 2);
    assert(call_trace(call_start(side, true).0, e1) =~= seq![
        CallAction::BrokenPipe { join_worker: true, message: Some(m) },
    ]);
    assert(call_trace(call_start(side, true).0, e2) =~= seq![
        CallAction::BrokenPipe { join_worker: false, message: None },
    ]);
    assert(call_actions(side, true, e1) =~= seq![
        CallAction::PollErrors,
        CallAction::BrokenPipe { join_worker: true, message: Some(m) },
    ]);
    assert(call_actions(side, true, e2) =~= seq![
        CallAction::PollErrors,
        CallAction::BrokenPipe { join_worker: false, message: None },
    ]);
}

/// Whether a call is past its error poll and not finished.
pub open spec fn call_under_way(c: HandleCall) -> bool {
    !(c.stage is AwaitErrors) && !(c.stage is Done)
}

proof fn lemma_call_ends_in_return(c: HandleCall, evs: Seq<CallEvent>)
    requires
        call_under_way(c),
        call_accepts_all(c, evs),
        forall|i: int| 0 <= i < evs.len() ==> evs[i] != (CallEvent::ReadinessSet { ok: false }),
        call_reached(c, evs).stage is Done,
    ensures
        evs.len() > 0,
        call_trace(c, evs).len() > 0,
        call_trace(c, evs).last() is Return,
    decreases evs.len(),
{
    let (c2, a) = call_next(c, evs[0]);
    let rest = evs.drop_first();
    assert(evs[0] != (CallEvent::ReadinessSet { ok: false }));
    let t = call_trace(c, evs);
    assert(t =~= seq![a] + call_trace(c2, rest));
    if c2.stage is Done {
        assert(a is Return);
        lemma_call_final_is_last(c2, rest);
        assert(call_trace(c2, rest) =~= Seq::<CallAction>::empty());
    } else {
        assert(call_under_way(c2));
        assert forall|i: int| 0 <= i < rest.len() implies rest[i] != (CallEvent::ReadinessSet {
            ok: false,
        }) by {
            assert(rest[i] == evs[i + 1]);
        }
        lemma_call_ends_in_return(c2, rest);
        assert(t.last() == call_trace(c2, rest).last());
    }
}

/// A call on either side whose error poll finds nothing and whose readiness
/// changes all succeed, once finished, has completed with `Return` of the
/// byte count its transfer reported: it never ends in a failure.
pub proof fn law_call_succeeds_unless_something_fails(side: Side, evs: Seq<CallEvent>)
    requires
        call_accepts_all(call_start(side, true).0, evs),
        evs.len() > 0,
        evs[0] == CallEvent::ErrorsPolled(ErrorPoll::Quiet),
        forall|i: int| 0 <= i < evs.len() ==> evs[i] != (CallEvent::ReadinessSet { ok: false }),
        call_reached(call_start(side, true).0, evs).stage is Done,
    ensures
        transferred_after(None, evs) is Some,
        call_actions(side, true, evs).last() == CallAction::Return(
            transferred_after(None, evs)->0,
        ),
{
    let c0 = call_start(side, true).0;
    let (c1, a1) = call_next(c0, evs[0]);
    let rest = evs.drop_first();
    assert(c1.stage is AwaitTransfer);
    assert forall|i: int| 0 <= i < rest.len() implies rest[i] != (CallEvent::ReadinessSet {
        ok: false,
    }) by {
        assert(rest[i] == evs[i + 1]);
    }
    lemma_call_ends_in_return(c1, rest);
    let acts = call_actions(side, true, evs);
    assert(acts =~= seq![CallAction::PollErrors] + (seq![a1] + call_trace(c1, rest)));
    assert(acts.last() == call_trace(c1, rest).last());
    let n = call_trace(c1, rest).last()->Return_0;
    lemma_call_final_is_last(c1, rest);
    lemma_call_count(c1, rest, None, n);
    assert(transferred_after(None, evs) == transferred_after(None, rest));
}

/// Only a failure that joins the worker takes the worker away from a
/// handle: every other action of a call leaves the handle as it was.
pub proof fn law_only_a_joining_failure_detaches(worker_attached: bool, last: CallAction)
    ensures
        !(last matches CallAction::BrokenPipe { join_worker: true, .. }) ==> keeps_worker(
            worker_attached,
            last,
        ) == worker_attached,
        last matches CallAction::BrokenPipe { join_worker: true, .. } ==> !keeps_worker(
            worker_attached,
            last,
        ),
{
}

/// A readiness change that fails during a call fails the call at once with
/// that error: the call neither looks at the ring again nor wakes the
/// worker nor reports a count.
pub proof fn law_call_passes_readiness_failure(side: Side, n: usize)
    ensures
        call_next(
            HandleCall { side, stage: CallStage::AwaitClear { nbytes: n } },
            CallEvent::ReadinessSet { ok: false },
        ) == (HandleCall { side, stage: CallStage::Done }, CallAction::PassIoError),
        call_next(
            HandleCall { side, stage: CallStage::AwaitRestore { nbytes: n } },
            CallEvent::ReadinessSet { ok: false },
        ) == (HandleCall { side, stage: CallStage::Done }, CallAction::PassIoError),
{
}

} // verus!
