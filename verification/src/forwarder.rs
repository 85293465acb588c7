//! The streaming pipe: adapts one uploader's inbound byte stream into the
//! downloader's response body, counting bytes, detecting length over- and
//! underrun, and telling the caller when to fire the completion signal.
//!
//! The pipe itself holds no I/O. The caller pulls an event from the inbound
//! stream (a chunk, end-of-stream, or not-ready) and hands it to
//! [`forward_step`], which returns the action to perform downstream.

use vstd::prelude::*;

verus! {

/// The uploader-side half of an active pipe. While not `fused` the pipe is
/// pending: exactly one inbound stream and one completion signal belong to
/// it, held by the caller under `handle`. Once fused it yields no further
/// bytes.
pub struct Forwarder {
    /// Names the inbound body and completion sender held by the caller.
    pub handle: u64,
    /// The transfer's declared content length, copied at creation.
    pub length: u64,
    /// Bytes relayed so far; grows monotonically.
    pub bytes_sent: u64,
    /// Set once the pipe has terminated; never cleared.
    pub fused: bool,
}

impl Forwarder {
    /// A pending pipe that has relayed nothing yet.
    pub open spec fn fresh(handle: u64, length: u64) -> Forwarder {
        Forwarder { handle, length, bytes_sent: 0, fused: false }
    }

    /// A pending pipe never counts past its declared length.
    pub open spec fn wf(self) -> bool {
        !self.fused ==> self.bytes_sent <= self.length
    }

    /// The declared content length the pipe reports downstream.
    pub fn content_length(&self) -> (r: Option<u64>)
        ensures
            r == Some(self.length),
    {
        Some(self.length)
    }

    /// Whether the pipe is spent: a fused pipe yields only end-of-stream.
    pub fn is_fused(&self) -> (r: bool)
        ensures
            r == self.fused,
    {
        self.fused
    }
}

/// What one pull of the inbound stream produced.
pub enum PullEvent {
    /// A chunk of the uploader's body.
    Chunk(Vec<u8>),
    /// The inbound stream ended.
    End,
    /// The inbound stream is not ready; backpressure.
    NotReady,
}

/// What the pipe tells the caller to do downstream after one pull. The
/// completion signal is sent exactly once per pipe, on the action whose
/// `completed` flag is set.
pub enum PullAction {
    /// Emit the chunk; when `completed` is set, also send the completion
    /// signal to the uploader.
    Yield { chunk: Vec<u8>, completed: bool },
    /// Emit end-of-stream; when `completed` is set — the inbound stream
    /// ended at exactly the declared length, as an empty transfer's does —
    /// also send the completion signal.
    End { completed: bool },
    /// Propagate the not-ready indication.
    NotReady,
}

/// A [`PullEvent`] with the chunk abstracted to its byte sequence.
pub enum EventView {
    Chunk(Seq<u8>),
    End,
    NotReady,
}

/// A [`PullAction`] with the chunk abstracted to its byte sequence.
pub enum ActionView {
    Yield { chunk: Seq<u8>, completed: bool },
    End { completed: bool },
    NotReady,
}

impl View for PullEvent {
    type V = EventView;

    open spec fn view(&self) -> EventView {
        match self {
            PullEvent::Chunk(c) => EventView::Chunk(c@),
            PullEvent::End => EventView::End,
            PullEvent::NotReady => EventView::NotReady,
        }
    }
}

impl View for PullAction {
    type V = ActionView;

    open spec fn view(&self) -> ActionView {
        match self {
            PullAction::Yield { chunk, completed } => ActionView::Yield {
                chunk: chunk@,
                completed: *completed,
            },
            PullAction::End { completed } => ActionView::End { completed: *completed },
            PullAction::NotReady => ActionView::NotReady,
        }
    }
}

/// The outcome of one step: the pipe afterwards, and the action it asks for.
pub struct StepResult {
    pub state: Forwarder,
    pub action: ActionView,
}

/// The pipe's transition function.
///
/// A fused pipe only emits end-of-stream. A pending pipe consuming a chunk
/// counts it and emits it; reaching (or exceeding) the declared length fuses
/// the pipe and fires completion. Inbound end-of-stream at exactly the
/// declared length is a completed transfer — an empty transfer's stream ends
/// before any chunk — so the pipe fuses and fires completion; end-of-stream
/// before the declared length is an anomalous early termination that fuses
/// without firing completion. Not-ready is passed through.
pub open spec fn forward_step_spec(f: Forwarder, ev: EventView) -> StepResult {
    if f.fused {
        StepResult { state: f, action: ActionView::End { completed: false } }
    } else {
        match ev {
            EventView::Chunk(bytes) => {
                let sent = (f.bytes_sent + bytes.len()) as u64;
                if sent < f.length {
                    StepResult {
                        state: Forwarder { bytes_sent: sent, ..f },
                        action: ActionView::Yield { chunk: bytes, completed: false },
                    }
                } else {
                    StepResult {
                        state: Forwarder { bytes_sent: sent, fused: true, ..f },
                        action: ActionView::Yield { chunk: bytes, completed: true },
                    }
                }
            },
            EventView::End => StepResult {
                state: Forwarder { fused: true, ..f },
                action: ActionView::End { completed: f.bytes_sent == f.length },
            },
            EventView::NotReady => StepResult { state: f, action: ActionView::NotReady },
        }
    }
}

/// One pull of the pipe: consume the inbound event, return the downstream
/// action. The counter must not be asked past the integer range.
pub fn forward_step(f: &mut Forwarder, ev: PullEvent) -> (act: PullAction)
    requires
        ev matches PullEvent::Chunk(c) ==> old(f).bytes_sent + c@.len() <= u64::MAX,
    ensures
        *final(f) == forward_step_spec(*old(f), ev@).state,
        act@ == forward_step_spec(*old(f), ev@).action,
        old(f).wf() ==> final(f).wf(),
        old(f).fused ==> *final(f) == *old(f),
{
    if f.fused {
        return PullAction::End { completed: false };
    }
    match ev {
        PullEvent::Chunk(c) => {
            f.bytes_sent = f.bytes_sent + c.len() as u64;
            if f.bytes_sent < f.length {
                PullAction::Yield { chunk: c, completed: false }
            } else {
                f.fused = true;
                PullAction::Yield { chunk: c, completed: true }
            }
        },
        PullEvent::End => {
            let completed = f.bytes_sent == f.length;
            f.fused = true;
            PullAction::End { completed }
        },
        PullEvent::NotReady => PullAction::NotReady,
    }
}

/// The bytes a list of actions emits downstream, in order.
pub open spec fn yielded_bytes(acts: Seq<ActionView>) -> Seq<u8>
    decreases acts.len(),
{
    if acts.len() == 0 {
        Seq::empty()
    } else {
        (match acts[0] {
            ActionView::Yield { chunk, .. } => chunk,
            _ => Seq::empty(),
        }) + yielded_bytes(acts.skip(1))
    }
}

/// The bytes a list of inbound events carries, in order.
pub open spec fn event_bytes(evs: Seq<EventView>) -> Seq<u8>
    decreases evs.len(),
{
    if evs.len() == 0 {
        Seq::empty()
    } else {
        (match evs[0] {
            EventView::Chunk(bytes) => bytes,
            _ => Seq::empty(),
        }) + event_bytes(evs.skip(1))
    }
}

/// A whole run of the pipe: the state afterwards, the actions emitted, and
/// how many inbound events were consumed. A fused pipe pulls nothing more.
pub struct RunResult {
    pub state: Forwarder,
    pub actions: Seq<ActionView>,
    pub consumed: int,
}

pub open spec fn forward_run(f: Forwarder, evs: Seq<EventView>) -> RunResult
    decreases evs.len(),
{
    if evs.len() == 0 || f.fused {
        RunResult { state: f, actions: Seq::empty(), consumed: 0 }
    } else {
        let step = forward_step_spec(f, evs[0]);
        let rest = forward_run(step.state, evs.skip(1));
        RunResult {
            state: rest.state,
            actions: seq![step.action] + rest.actions,
            consumed: 1 + rest.consumed,
        }
    }
}

/// Once fused, a pipe stays fused and only ever asks for end-of-stream,
/// never for another completion signal.
pub proof fn lemma_fused_stays_fused(f: Forwarder, ev: EventView)
    ensures
        f.fused ==> forward_step_spec(f, ev).state.fused,
        f.fused ==> forward_step_spec(f, ev).action == (ActionView::End { completed: false }),
{
}

/// One-to-one delivery: over any run of the pipe, the bytes emitted to the
/// downloader are exactly the bytes pulled from the uploader, in order.
pub proof fn lemma_one_to_one_delivery(f: Forwarder, evs: Seq<EventView>)
    ensures
        ({
            let r = forward_run(f, evs);
            &&& 0 <= r.consumed <= evs.len()
            &&& yielded_bytes(r.actions) == event_bytes(evs.take(r.consumed))
        }),
    decreases evs.len(),
{
    let r = forward_run(f, evs);
    if evs.len() == 0 || f.fused {
        assert(evs.take(0) =~= Seq::<EventView>::empty());
    } else {
        let step = forward_step_spec(f, evs[0]);
        let rest = forward_run(step.state, evs.skip(1));
        lemma_one_to_one_delivery(step.state, evs.skip(1));
        assert(evs.take(1 + rest.consumed) =~= seq![evs[0]] + evs.skip(1).take(rest.consumed));
        lemma_yielded_bytes_cons(step.action, rest.actions);
        lemma_event_bytes_cons(evs[0], evs.skip(1).take(rest.consumed));
        assert(match evs[0] {
            EventView::Chunk(bytes) => step.action == ActionView::Yield {
                chunk: bytes,
                completed: step.state.fused,
            },
            EventView::End => step.action == (ActionView::End {
                completed: f.bytes_sent == f.length,
            }),
            EventView::NotReady => step.action == ActionView::NotReady,
        });
    }
}

/// How many actions in a list ask for the completion signal.
pub open spec fn completions_of(acts: Seq<ActionView>) -> int
    decreases acts.len(),
{
    if acts.len() == 0 {
        0
    } else {
        (match acts[0] {
            ActionView::Yield { completed: true, .. } => 1int,
            ActionView::End { completed: true } => 1int,
            _ => 0int,
        }) + completions_of(acts.skip(1))
    }
}

/// The completion signal fires at most once over any run of the pipe: only
/// the step that fuses the pipe carries it, and a fused pipe asks for
/// nothing further. A pipe that starts fused never asks for it at all.
pub proof fn lemma_completion_fires_once(f: Forwarder, evs: Seq<EventView>)
    ensures
        completions_of(forward_run(f, evs).actions) <= 1,
        f.fused ==> completions_of(forward_run(f, evs).actions) == 0,
    decreases evs.len(),
{
    if evs.len() == 0 || f.fused {
    } else {
        let step = forward_step_spec(f, evs[0]);
        let rest = forward_run(step.state, evs.skip(1));
        lemma_completion_fires_once(step.state, evs.skip(1));
        lemma_completions_cons(step.action, rest.actions);
        match step.action {
            ActionView::Yield { completed, .. } => {
                if completed {
                    assert(step.state.fused);
                }
            },
            ActionView::End { completed } => {
                if completed {
                    assert(step.state.fused);
                }
            },
            _ => {},
        }
    }
}

proof fn lemma_completions_cons(a: ActionView, acts: Seq<ActionView>)
    ensures
        completions_of(seq![a] + acts) == (match a {
            ActionView::Yield { completed: true, .. } => 1int,
            ActionView::End { completed: true } => 1int,
            _ => 0int,
        }) + completions_of(acts),
{
    assert((seq![a] + acts).skip(1) =~= acts);
    assert((seq![a] + acts)[0] == a);
}

proof fn lemma_yielded_bytes_cons(a: ActionView, acts: Seq<ActionView>)
    ensures
        yielded_bytes(seq![a] + acts) == (match a {
            ActionView::Yield { chunk, .. } => chunk,
            _ => Seq::empty(),
        }) + yielded_bytes(acts),
{
    assert((seq![a] + acts).skip(1) =~= acts);
    assert((seq![a] + acts)[0] == a);
}

proof fn lemma_event_bytes_cons(e: EventView, evs: Seq<EventView>)
    ensures
        event_bytes(seq![e] + evs) == (match e {
            EventView::Chunk(bytes) => bytes,
            _ => Seq::empty(),
        }) + event_bytes(evs),
{
    assert((seq![e] + evs).skip(1) =~= evs);
    assert((seq![e] + evs)[0] == e);
}

} // verus!
