//! The session: what the user has typed, what is playing, and what each
//! input and each tick call for.

use crate::config::SEEK_MS;
use crate::engine::{
    after_ended, after_steps, ended_after, lemma_load_fills_queue, lemma_skip_empties_queue,
    load_steps, padding_nanos, skip_plan, skip_steps, steps, wants_track, Playback, Queue, SinkOp,
    SinkOpView,
};
use crate::finder::{c, entries, resolve};
use crate::random::random_below;
use crate::span::{add_capped, sub_floored, Span};
use crate::track::{Track, TrackView};
use rand::rngs::ThreadRng;
use vstd::prelude::*;
use vstd::string::StringExecFns;

verus! {

/// A key, as far as the session tells keys apart.
#[derive(Clone, Copy, Debug, PartialEq, Eq, Structural)]
pub enum Key {
    Esc,
    Enter,
    Tab,
    Up,
    Down,
    Left,
    Right,
    Backspace,
    /// A key that stands for a character.
    Char(char),
    /// Any other key.
    Other,
}

/// What reached the session from the terminal.
#[derive(Clone, Debug, PartialEq, Eq)]
pub enum Input {
    /// A key was pressed.
    Press(Key),
    /// Text was pasted.
    Paste(String),
    /// Anything else.
    Other,
}

/// An input, with pasted text as text.
pub enum InputView {
    Press(Key),
    Paste(Seq<char>),
    Other,
}

impl View for Input {
    type V = InputView;

    open spec fn view(&self) -> InputView {
        match *self {
            Input::Press(key) => InputView::Press(key),
            Input::Paste(text) => InputView::Paste(text@),
            Input::Other => InputView::Other,
        }
    }
}

/// What an input calls for.
#[derive(Clone, Debug, PartialEq, Eq)]
pub enum Action {
    /// End the session.
    Quit,
    /// Nothing.
    Nothing,
    /// Pause the output.
    Pause,
    /// Resume the output.
    Resume,
    /// Drop what is queued and go on to another track.
    Skip,
    /// Raise the volume by one step.
    Louder,
    /// Lower the volume by one step.
    Quieter,
    /// Move to the given position in the track.
    Seek(Span),
    /// Find what the text stands for in the catalog and load it.
    Load(String),
}

/// An action, with positions in nanoseconds and text as text.
pub enum ActionView {
    Quit,
    Nothing,
    Pause,
    Resume,
    Skip,
    Louder,
    Quieter,
    Seek(nat),
    Load(Seq<char>),
}

impl View for Action {
    type V = ActionView;

    open spec fn view(&self) -> ActionView {
        match *self {
            Action::Quit => ActionView::Quit,
            Action::Nothing => ActionView::Nothing,
            Action::Pause => ActionView::Pause,
            Action::Resume => ActionView::Resume,
            Action::Skip => ActionView::Skip,
            Action::Louder => ActionView::Louder,
            Action::Quieter => ActionView::Quieter,
            Action::Seek(target) => ActionView::Seek(target@),
            Action::Load(text) => ActionView::Load(text@),
        }
    }
}

/// The steps that an action asks of the output. Quitting, a change of
/// volume and a load ask none by themselves.
pub open spec fn plan_steps(action: ActionView) -> Seq<SinkOpView> {
    match action {
        ActionView::Pause => seq![SinkOpView::Pause],
        ActionView::Resume => seq![SinkOpView::Play],
        ActionView::Skip => skip_steps(),
        ActionView::Seek(target) => seq![SinkOpView::Seek(target)],
        _ => Seq::empty(),
    }
}

impl Action {
    /// The steps that the action asks of the output, in order.
    pub fn plan(&self) -> (plan: Vec<SinkOp>)
        ensures
            steps(plan@) == plan_steps(self@),
    {
        let plan = match self {
            Action::Pause => vec![SinkOp::Pause],
            Action::Resume => vec![SinkOp::Play],
            Action::Skip => skip_plan(),
            Action::Seek(target) => vec![SinkOp::Seek(*target)],
            _ => Vec::new(),
        };
        assert(steps(plan@) =~= plan_steps(self@));
        plan
    }
}

/// The length of one seek step in nanoseconds.
pub open spec fn seek_nanos() -> nat {
    (SEEK_MS as nat) * 1_000_000
}

/// The typed text after an input. Enter and Backspace leave it empty, a
/// character or pasted text is added at its end, anything else leaves it.
pub open spec fn next_query(query: Seq<char>, input: InputView) -> Seq<char> {
    match input {
        InputView::Press(Key::Enter) => Seq::empty(),
        InputView::Press(Key::Backspace) => Seq::empty(),
        InputView::Press(Key::Char(ch)) => query.push(ch),
        InputView::Paste(text) => query + text,
        _ => query,
    }
}

/// What an input calls for, given the typed text so far, whether the output
/// is paused, and how far the track has played.
pub open spec fn action_for(
    query: Seq<char>,
    input: InputView,
    paused: bool,
    position: nat,
) -> ActionView {
    match input {
        InputView::Press(Key::Esc) => ActionView::Quit,
        InputView::Press(Key::Enter) => if query.len() == 0 {
            if paused {
                ActionView::Resume
            } else {
                ActionView::Pause
            }
        } else {
            ActionView::Load(query)
        },
        InputView::Press(Key::Tab) => ActionView::Skip,
        InputView::Press(Key::Up) => ActionView::Louder,
        InputView::Press(Key::Down) => ActionView::Quieter,
        InputView::Press(Key::Left) => if paused {
            ActionView::Seek(sub_floored(position, seek_nanos()))
        } else {
            ActionView::Pause
        },
        InputView::Press(Key::Right) => if paused {
            ActionView::Resume
        } else {
            ActionView::Seek(add_capped(position, seek_nanos()))
        },
        _ => ActionView::Nothing,
    }
}

/// What a tick asks to be loaded when `index` was drawn: the entry at
/// `index`, where the output wants a track and the catalog is not empty.
pub open spec fn chosen(
    paused: bool,
    depth: nat,
    catalog: Seq<Seq<char>>,
    index: int,
) -> Option<Seq<char>> {
    if wants_track(paused, depth) && catalog.len() > 0 {
        Some(catalog[index])
    } else {
        None
    }
}

/// The text of an optional string.
pub open spec fn text_of(request: Option<String>) -> Option<Seq<char>> {
    match request {
        Some(text) => Some(text@),
        None => None,
    }
}

/// How the output is doing, as one of three signs.
#[derive(Clone, Copy, Debug, PartialEq, Eq, Structural)]
pub enum Status {
    /// Paused.
    Paused,
    /// Running with something queued.
    Playing,
    /// Running with nothing queued.
    Empty,
}

/// The status at a reading.
pub open spec fn status_of(paused: bool, depth: nat) -> Status {
    if paused {
        Status::Paused
    } else if depth != 0 {
        Status::Playing
    } else {
        Status::Empty
    }
}

impl Status {
    /// The sign shown for the status.
    pub fn symbol(&self) -> (sign: char)
        ensures
            sign == match *self {
                Status::Paused => '=',
                Status::Playing => '+',
                Status::Empty => '-',
            },
    {
        match self {
            Status::Paused => '=',
            Status::Playing => '+',
            Status::Empty => '-',
        }
    }
}

/// How far the track has played, beside its length.
#[derive(Clone, Copy, Debug, PartialEq, Eq, Structural)]
pub struct Gauge {
    /// How far the track has played.
    pub elapsed: Span,
    /// The length of the track; zero where it is not known.
    pub total: Span,
}

/// What is to be drawn.
#[derive(Clone, Debug, PartialEq, Eq)]
pub struct Snapshot {
    /// How the output is doing.
    pub status: Status,
    /// Whether the user is typing a search.
    pub searching: bool,
    /// The text to show: the match of the search, or the label of the track.
    pub text: String,
    /// The progress to show, if any.
    pub gauge: Option<Gauge>,
}

/// The text to show: while a search is typed, what it stands for in the
/// catalog; else the label of the track, whatever the queue holds.
pub open spec fn shown_text(
    query: Seq<char>,
    label: Seq<char>,
    catalog: Seq<Seq<char>>,
) -> Seq<char> {
    if query.len() > 0 {
        resolve(catalog, query)
    } else {
        label
    }
}

/// The progress to show: none while only the padding is left in the queue.
pub open spec fn shown_gauge(depth: nat, elapsed: Span, total: Span) -> Option<Gauge> {
    if depth == 1 {
        None
    } else {
        Some(Gauge { elapsed, total })
    }
}

/// The state of a session.
#[derive(Clone, Debug, PartialEq, Eq)]
pub struct Session {
    /// The text typed so far; empty while the user is not searching.
    pub query: String,
    /// The track that was loaded last.
    pub now_playing: Track,
}

/// A session, with its texts as text.
pub struct SessionView {
    pub query: Seq<char>,
    pub now_playing: TrackView,
}

impl View for Session {
    type V = SessionView;

    open spec fn view(&self) -> SessionView {
        SessionView { query: self.query@, now_playing: self.now_playing@ }
    }
}

/// Adds `ch` at the end of `text` by `String::push` of the standard library,
/// which appends the character and leaves what stood before it.
#[verifier::external_body]
fn push_char(text: &mut String, ch: char)
    ensures
        final(text)@ == old(text)@.push(ch),
{
    text.push(ch)
}

impl Session {
    /// A session at its start: nothing typed, no track.
    pub fn new() -> (session: Session)
        ensures
            session@.query == Seq::<char>::empty(),
            session@.now_playing.label == Seq::<char>::empty(),
            session@.now_playing.duration == 0,
    {
        Session { query: String::new(), now_playing: Track::none() }
    }

    /// Whether the user is typing a search.
    pub fn searching(&self) -> (yes: bool)
        ensures
            yes == (self@.query.len() > 0),
    {
        !self.query.as_str().is_empty()
    }

    /// Takes one input: changes the typed text as [`next_query`] says and
    /// returns what [`action_for`] says. The track is left as it is.
    pub fn dispatch(&mut self, input: Input, playback: &Playback) -> (action: Action)
        ensures
            final(self)@.query == next_query(old(self)@.query, input@),
            final(self).now_playing == old(self).now_playing,
            action@ == action_for(old(self)@.query, input@, playback.paused, playback.position@),
    {
        match input {
            Input::Press(Key::Esc) => Action::Quit,
            Input::Press(Key::Enter) => {
                if self.query.as_str().is_empty() {
                    if playback.paused {
                        Action::Resume
                    } else {
                        Action::Pause
                    }
                } else {
                    let mut text = String::new();
                    std::mem::swap(&mut text, &mut self.query);
                    Action::Load(text)
                }
            },
            Input::Press(Key::Tab) => Action::Skip,
            Input::Press(Key::Up) => Action::Louder,
            Input::Press(Key::Down) => Action::Quieter,
            Input::Press(Key::Left) => {
                if playback.paused {
                    Action::Seek(playback.position.saturating_sub(Span::from_millis(SEEK_MS)))
                } else {
                    Action::Pause
                }
            },
            Input::Press(Key::Right) => {
                if playback.paused {
                    Action::Resume
                } else {
                    Action::Seek(playback.position.saturating_add(Span::from_millis(SEEK_MS)))
                }
            },
            Input::Press(Key::Backspace) => {
                self.query = String::new();
                Action::Nothing
            },
            Input::Press(Key::Char(ch)) => {
                push_char(&mut self.query, ch);
                Action::Nothing
            },
            Input::Press(Key::Other) => Action::Nothing,
            Input::Paste(text) => {
                self.query.append(text.as_str());
                Action::Nothing
            },
            Input::Other => Action::Nothing,
        }
    }

    /// Takes what came of a load: a track that is ready takes the place of
    /// the one shown; after a failure the one shown stays.
    pub fn loaded(&mut self, outcome: Option<Track>)
        ensures
            final(self).query == old(self).query,
            final(self).now_playing == match outcome {
                Some(track) => track,
                None => old(self).now_playing,
            },
    {
        match outcome {
            Some(track) => {
                self.now_playing = track;
            },
            None => {},
        }
    }

    /// What is to be drawn at a reading of the output, with `files` as the
    /// catalog of the moment. While nothing is typed, the text is the label
    /// of the track and the catalog plays no part. While only the padding is
    /// left in the queue, no progress is shown.
    pub fn render(&self, playback: &Playback, files: &Vec<String>) -> (snapshot: Snapshot)
        ensures
            snapshot.status == status_of(playback.paused, playback.depth as nat),
            snapshot.searching == (self@.query.len() > 0),
            snapshot.text@ == shown_text(self@.query, self@.now_playing.label, entries(files@)),
            snapshot.gauge == shown_gauge(
                playback.depth as nat,
                playback.position,
                self.now_playing.duration,
            ),
    {
        let status = if playback.paused {
            Status::Paused
        } else if playback.depth != 0 {
            Status::Playing
        } else {
            Status::Empty
        };
        let searching = self.searching();
        let text = if searching {
            c(&self.query, files)
        } else {
            self.now_playing.label.clone()
        };
        let gauge = if playback.depth == 1 {
            None
        } else {
            Some(Gauge { elapsed: playback.position, total: self.now_playing.duration })
        };
        Snapshot { status, searching, text, gauge }
    }
}

/// What a tick asks to be loaded when `index` was drawn from the places of
/// the catalog.
pub fn choice(playback: &Playback, files: &Vec<String>, index: usize) -> (request: Option<String>)
    requires
        files@.len() > 0 ==> index < files@.len(),
    ensures
        text_of(request) == chosen(
            playback.paused,
            playback.depth as nat,
            entries(files@),
            index as int,
        ),
{
    if playback.wants_track() && files.len() > 0 {
        Some(files[index].clone())
    } else {
        None
    }
}

/// The tick: where the output runs with an empty queue and the catalog holds
/// anything, asks for one of its entries, drawn by chance, to be loaded; else
/// asks for nothing. A paused output is never given a track.
pub fn advance(playback: &Playback, files: &Vec<String>, rng: &mut ThreadRng) -> (request: Option<
    String,
>)
    ensures
        request is Some <==> wants_track(playback.paused, playback.depth as nat) && files@.len()
            > 0,
        playback.paused ==> request is None,
        request is Some ==> exists|index: int|
            0 <= index < files@.len() && text_of(request) == chosen(
                playback.paused,
                playback.depth as nat,
                entries(files@),
                index,
            ),
{
    if playback.wants_track() && files.len() > 0 {
        let index = random_below(rng, files.len());
        choice(playback, files, index)
    } else {
        None
    }
}

/// A paused output is never given a track, whatever its queue holds and
/// whatever was drawn.
pub proof fn lemma_paused_never_advances(depth: nat, catalog: Seq<Seq<char>>, index: int)
    ensures
        chosen(true, depth, catalog, index) is None,
{
}

/// After a skip, whatever the queue held before, the next tick asks for a
/// track, provided the catalog holds one; and once that track is loaded, the
/// tick after it asks for none.
pub proof fn lemma_skip_then_tick_loads(before: Queue, catalog: Seq<Seq<char>>, index: int)
    requires
        0 <= index < catalog.len(),
    ensures
        ({
            let skipped = after_steps(before, plan_steps(ActionView::Skip));
            let loaded = after_steps(skipped, load_steps());
            &&& chosen(skipped.paused, skipped.depth, catalog, index) == Some(catalog[index])
            &&& chosen(loaded.paused, loaded.depth, catalog, index) is None
        }),
{
    lemma_skip_empties_queue(before);
    lemma_load_fills_queue(after_steps(before, skip_steps()));
}

/// Seeking back from a position within one seek step of the start lands on
/// the start, and from anywhere lands no later than the position.
pub proof fn lemma_seek_back_stops_at_start(query: Seq<char>, position: nat)
    ensures
        action_for(query, InputView::Press(Key::Left), true, position) matches ActionView::Seek(
            target,
        ) && target <= position && (position <= seek_nanos() ==> target == 0),
{
}

/// A load is asked for by an input only with the text that was typed, and
/// only where some text was typed: the catalog is never searched for the
/// empty text.
pub proof fn lemma_load_needs_typed_text(
    query: Seq<char>,
    input: InputView,
    paused: bool,
    position: nat,
)
    ensures
        action_for(query, input, paused, position) matches ActionView::Load(text) ==> text == query
            && query.len() > 0,
{
}

/// While nothing is typed, the text shown is the label of the track,
/// whatever the catalog and the queue hold, and Enter asks only to pause or
/// to resume.
pub proof fn lemma_nothing_typed_shows_label(
    label: Seq<char>,
    catalog: Seq<Seq<char>>,
    paused: bool,
    position: nat,
)
    ensures
        shown_text(Seq::empty(), label, catalog) == label,
        action_for(Seq::empty(), InputView::Press(Key::Enter), paused, position) == if paused {
            ActionView::Resume
        } else {
            ActionView::Pause
        },
{
}

/// Backspace drops all that was typed, asks nothing of the output, and the
/// text shown after it is the label of the track again.
pub proof fn lemma_backspace_shows_label(
    query: Seq<char>,
    label: Seq<char>,
    catalog: Seq<Seq<char>>,
    paused: bool,
    position: nat,
)
    ensures
        next_query(query, InputView::Press(Key::Backspace)) == Seq::<char>::empty(),
        action_for(query, InputView::Press(Key::Backspace), paused, position)
            == ActionView::Nothing,
        shown_text(next_query(query, InputView::Press(Key::Backspace)), label, catalog) == label,
{
}

/// A loaded queue that runs is given another track exactly once both of its
/// segments have ended: not while the track plays, and not while the padding
/// behind it plays.
pub proof fn lemma_advance_waits_for_drain(
    before: Queue,
    catalog: Seq<Seq<char>>,
    index: int,
    ended: nat,
)
    requires
        0 <= index < catalog.len(),
    ensures
        ({
            let now = after_ended(after_steps(before, load_steps()), ended);
            chosen(now.paused, now.depth, catalog, index) is Some <==> ended >= 2
        }),
{
    lemma_load_fills_queue(before);
}

/// Where each segment ends once its own length has played, a track of length
/// `track` that was loaded `elapsed` ago into an output that has run since is
/// followed by another exactly when the track and the whole padding have
/// played out, and not before.
pub proof fn lemma_advance_once_padding_is_exhausted(
    before: Queue,
    catalog: Seq<Seq<char>>,
    index: int,
    track: nat,
    elapsed: nat,
)
    requires
        0 <= index < catalog.len(),
    ensures
        ({
            let ended = ended_after(elapsed, track, padding_nanos());
            let now = after_ended(after_steps(before, load_steps()), ended);
            chosen(now.paused, now.depth, catalog, index) is Some <==> elapsed >= track
                + padding_nanos()
        }),
{
    lemma_advance_waits_for_drain(
        before,
        catalog,
        index,
        ended_after(elapsed, track, padding_nanos()),
    );
}

} // verus!
