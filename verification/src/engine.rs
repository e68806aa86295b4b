//! The audio output as the session sees it: what it reports, the steps it is
//! asked to take, and what those steps are expected to do to its queue.

use crate::config::SILENCE_PADDING_MS;
use crate::span::Span;
use vstd::prelude::*;

verus! {

/// What the queue of the output holds, told from its depth.
#[derive(Clone, Copy, Debug, PartialEq, Eq, Structural)]
pub enum QueueState {
    /// Nothing is queued.
    Idle,
    /// Only the padding behind a finished track is left.
    Draining,
    /// A track and its padding are queued.
    Active,
}

/// The state of a queue that holds `depth` segments.
pub open spec fn queue_state(depth: nat) -> QueueState {
    if depth == 0 {
        QueueState::Idle
    } else if depth == 1 {
        QueueState::Draining
    } else {
        QueueState::Active
    }
}

/// Tells the state of a queue that holds `depth` segments.
pub fn classify(depth: usize) -> (state: QueueState)
    ensures
        state == queue_state(depth as nat),
{
    if depth == 0 {
        QueueState::Idle
    } else if depth == 1 {
        QueueState::Draining
    } else {
        QueueState::Active
    }
}

/// Whether a tick is to look for another track: the output runs and its
/// queue is empty.
pub open spec fn wants_track(paused: bool, depth: nat) -> bool {
    !paused && depth == 0
}

/// One reading of the output.
#[derive(Clone, Copy, Debug, PartialEq, Eq, Structural)]
pub struct Playback {
    /// Whether the output is paused.
    pub paused: bool,
    /// How many segments are queued.
    pub depth: usize,
    /// How far the running segment has played.
    pub position: Span,
}

impl Playback {
    /// The state of the queue at this reading.
    pub fn state(&self) -> (state: QueueState)
        ensures
            state == queue_state(self.depth as nat),
    {
        classify(self.depth)
    }

    /// Whether a tick at this reading is to look for another track.
    pub fn wants_track(&self) -> (wanted: bool)
        ensures
            wanted == wants_track(self.paused, self.depth as nat),
    {
        !self.paused && self.depth == 0
    }

    /// What the reading says of the queue.
    pub open spec fn queue(&self) -> Queue {
        Queue { depth: self.depth as nat, paused: self.paused }
    }
}

/// One step asked of the output.
#[derive(Clone, Copy, Debug, PartialEq, Eq, Structural)]
pub enum SinkOp {
    /// Drop all that is queued. The output is left paused.
    Clear,
    /// Queue the track that was opened.
    AppendTrack,
    /// Queue near-silence of the given length.
    AppendPadding(Span),
    /// Move to the given position in the running segment. A refusal is ignored.
    Seek(Span),
    /// Resume.
    Play,
    /// Pause.
    Pause,
}

/// A step, with lengths in nanoseconds.
pub enum SinkOpView {
    Clear,
    AppendTrack,
    AppendPadding(nat),
    Seek(nat),
    Play,
    Pause,
}

impl View for SinkOp {
    type V = SinkOpView;

    open spec fn view(&self) -> SinkOpView {
        match *self {
            SinkOp::Clear => SinkOpView::Clear,
            SinkOp::AppendTrack => SinkOpView::AppendTrack,
            SinkOp::AppendPadding(length) => SinkOpView::AppendPadding(length@),
            SinkOp::Seek(target) => SinkOpView::Seek(target@),
            SinkOp::Play => SinkOpView::Play,
            SinkOp::Pause => SinkOpView::Pause,
        }
    }
}

/// The views of a sequence of steps, in order.
pub open spec fn steps(ops: Seq<SinkOp>) -> Seq<SinkOpView> {
    ops.map_values(|op: SinkOp| op@)
}

/// The length of the padding in nanoseconds.
pub open spec fn padding_nanos() -> nat {
    (SILENCE_PADDING_MS as nat) * 1_000_000
}

/// The steps that put a freshly opened track in place of whatever is queued.
pub open spec fn load_steps() -> Seq<SinkOpView> {
    seq![
        SinkOpView::Clear,
        SinkOpView::AppendTrack,
        SinkOpView::AppendPadding(padding_nanos()),
        SinkOpView::Seek(0),
        SinkOpView::Play,
    ]
}

/// The steps that empty the queue and leave the output running.
pub open spec fn skip_steps() -> Seq<SinkOpView> {
    seq![SinkOpView::Clear, SinkOpView::Play]
}

/// The steps of a load: clear, queue the track, queue the padding behind it,
/// start from the beginning, resume.
pub fn load_plan() -> (plan: Vec<SinkOp>)
    ensures
        steps(plan@) == load_steps(),
{
    let plan = vec![
        SinkOp::Clear,
        SinkOp::AppendTrack,
        SinkOp::AppendPadding(Span::from_millis(SILENCE_PADDING_MS)),
        SinkOp::Seek(Span::zero()),
        SinkOp::Play,
    ];
    assert(steps(plan@) =~= load_steps());
    plan
}

/// The steps of a skip: clear, then resume, since clearing pauses.
pub fn skip_plan() -> (plan: Vec<SinkOp>)
    ensures
        steps(plan@) == skip_steps(),
{
    let plan = vec![SinkOp::Clear, SinkOp::Play];
    assert(steps(plan@) =~= skip_steps());
    plan
}

/// The queue of the output, as far as the session reasons about it.
pub struct Queue {
    /// How many segments are queued.
    pub depth: nat,
    /// Whether the output is paused.
    pub paused: bool,
}

/// The queue after one step.
pub open spec fn after_step(queue: Queue, op: SinkOpView) -> Queue {
    match op {
        SinkOpView::Clear => Queue { depth: 0, paused: true },
        SinkOpView::AppendTrack => Queue { depth: queue.depth + 1, paused: queue.paused },
        SinkOpView::AppendPadding(_) => Queue { depth: queue.depth + 1, paused: queue.paused },
        SinkOpView::Seek(_) => queue,
        SinkOpView::Play => Queue { depth: queue.depth, paused: false },
        SinkOpView::Pause => Queue { depth: queue.depth, paused: true },
    }
}

/// The queue after a sequence of steps, taken in order.
pub open spec fn after_steps(queue: Queue, ops: Seq<SinkOpView>) -> Queue
    decreases ops.len(),
{
    if ops.len() == 0 {
        queue
    } else {
        after_step(after_steps(queue, ops.drop_last()), ops.last())
    }
}

/// The queue after `ended` of its segments have played to their end.
pub open spec fn after_ended(queue: Queue, ended: nat) -> Queue {
    Queue {
        depth: if queue.depth >= ended { (queue.depth - ended) as nat } else { 0 },
        paused: queue.paused,
    }
}

/// How many of the two segments of a load have ended once the output has
/// run for `elapsed` since, where the track is `track` long, the padding
/// `padding`, and each segment ends when its own length has played.
pub open spec fn ended_after(elapsed: nat, track: nat, padding: nat) -> nat {
    if elapsed < track {
        0
    } else if elapsed < track + padding {
        1
    } else {
        2
    }
}

/// Whatever was queued before, a load leaves exactly the track and its
/// padding, and the output running.
pub proof fn lemma_load_fills_queue(before: Queue)
    ensures
        after_steps(before, load_steps()) == (Queue { depth: 2, paused: false }),
        queue_state(after_steps(before, load_steps()).depth) == QueueState::Active,
{
    let ops = load_steps();
    let s4 = ops.drop_last();
    let s3 = s4.drop_last();
    let s2 = s3.drop_last();
    let s1 = s2.drop_last();
    let s0 = s1.drop_last();
    assert(s0.len() == 0);
    assert(after_steps(before, s0) == before);
    assert(after_steps(before, s1) == (Queue { depth: 0, paused: true }));
    assert(after_steps(before, s2) == (Queue { depth: 1, paused: true }));
    assert(after_steps(before, s3) == (Queue { depth: 2, paused: true }));
    assert(after_steps(before, s4) == (Queue { depth: 2, paused: true }));
}

/// A loaded queue passes from active to draining to idle as its two segments
/// end, one after the other, with no step taken in between.
pub proof fn lemma_loaded_queue_drains(before: Queue)
    ensures
        ({
            let loaded = after_steps(before, load_steps());
            &&& queue_state(after_ended(loaded, 0).depth) == QueueState::Active
            &&& queue_state(after_ended(loaded, 1).depth) == QueueState::Draining
            &&& queue_state(after_ended(loaded, 2).depth) == QueueState::Idle
            &&& !after_ended(loaded, 2).paused
        }),
{
    lemma_load_fills_queue(before);
}

/// Whatever was queued before, a skip leaves the queue empty and the output
/// running.
pub proof fn lemma_skip_empties_queue(before: Queue)
    ensures
        after_steps(before, skip_steps()) == (Queue { depth: 0, paused: false }),
{
    let ops = skip_steps();
    let s1 = ops.drop_last();
    let s0 = s1.drop_last();
    assert(s0.len() == 0);
    assert(after_steps(before, s0) == before);
    assert(after_steps(before, s1) == (Queue { depth: 0, paused: true }));
}

} // verus!
