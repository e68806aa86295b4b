//! The track that is playing, and how a freshly opened file becomes one.

use crate::engine::{load_plan, load_steps, steps, SinkOp};
use crate::span::Span;
use vstd::prelude::*;

verus! {

/// A track as the session shows it.
#[derive(Clone, Debug, PartialEq, Eq)]
pub struct Track {
    /// The path the track was opened from.
    pub label: String,
    /// The length of the track; zero where it is not known.
    pub duration: Span,
}

/// A track, with its label as text and its length in nanoseconds.
pub struct TrackView {
    pub label: Seq<char>,
    pub duration: nat,
}

impl View for Track {
    type V = TrackView;

    open spec fn view(&self) -> TrackView {
        TrackView { label: self.label@, duration: self.duration@ }
    }
}

impl Track {
    /// No track: an empty label and no length.
    pub fn none() -> (track: Track)
        ensures
            track@.label == Seq::<char>::empty(),
            track@.duration == 0,
    {
        Track { label: String::new(), duration: Span::zero() }
    }
}

/// What came of opening a file and reading it as audio.
#[derive(Clone, Copy, Debug, PartialEq, Eq)]
pub enum Opening {
    /// The file is missing, cannot be read, or holds no audio that can be decoded.
    Failed,
    /// The file was decoded; its length, where the decoder can tell it.
    Opened(Option<Span>),
}

/// A track that is ready, and the steps that put it in the queue.
#[derive(Clone, Debug, PartialEq, Eq)]
pub struct Loaded {
    /// The track to show.
    pub track: Track,
    /// The steps to take, in order.
    pub plan: Vec<SinkOp>,
}

/// The length to show for a track whose decoder reported `length`.
pub open spec fn shown_nanos(length: Option<Span>) -> nat {
    match length {
        Some(span) => span@,
        None => 0,
    }
}

/// Decides what follows the attempt to open `path`. After a failure nothing
/// is to be done. After a success the track carries the path as its label and
/// the reported length, zero where none was reported, and the steps are those
/// of a load.
pub fn e(path: String, opening: Opening) -> (loaded: Option<Loaded>)
    ensures
        opening is Failed ==> loaded is None,
        opening matches Opening::Opened(length) ==> {
            &&& loaded matches Some(ready)
            &&& ready.track@.label == path@
            &&& ready.track@.duration == shown_nanos(length)
            &&& steps(ready.plan@) == load_steps()
        },
{
    match opening {
        Opening::Failed => None,
        Opening::Opened(length) => {
            let duration = match length {
                Some(span) => span,
                None => Span::zero(),
            };
            Some(Loaded { track: Track { label: path, duration }, plan: load_plan() })
        },
    }
}

} // verus!
