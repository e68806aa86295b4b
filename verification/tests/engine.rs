use mousikes::config::{INTERVAL_MS, SEEK_MS, SILENCE_PADDING_MS};
use mousikes::engine::{classify, load_plan, skip_plan, Playback, QueueState, SinkOp};
use mousikes::span::Span;
use mousikes::track::{e, Loaded, Opening, Track};

#[test]
fn settings_have_their_values() {
    assert_eq!(INTERVAL_MS, 500);
    assert_eq!(SEEK_MS, 5000);
    assert_eq!(SILENCE_PADDING_MS, 5000);
}

#[test]
fn classify_tells_three_states() {
    assert_eq!(classify(0), QueueState::Idle);
    assert_eq!(classify(1), QueueState::Draining);
    assert_eq!(classify(2), QueueState::Active);
    assert_eq!(classify(3), QueueState::Active);
    assert_eq!(classify(usize::MAX), QueueState::Active);
}

#[test]
fn a_reading_tells_its_state() {
    let playback = Playback { paused: true, depth: 1, position: Span::zero() };
    assert_eq!(playback.state(), QueueState::Draining);
}

#[test]
fn load_plan_queues_track_then_padding() {
    assert_eq!(
        load_plan(),
        vec![
            SinkOp::Clear,
            SinkOp::AppendTrack,
            SinkOp::AppendPadding(Span::from_millis(5000)),
            SinkOp::Seek(Span::zero()),
            SinkOp::Play,
        ]
    );
}

#[test]
fn a_load_leaves_two_segments_queued() {
    let mut depth = 7;
    for op in load_plan() {
        match op {
            SinkOp::Clear => depth = 0,
            SinkOp::AppendTrack | SinkOp::AppendPadding(_) => depth += 1,
            _ => {}
        }
    }
    assert_eq!(depth, 2);
    assert_eq!(classify(depth), QueueState::Active);
    assert_eq!(classify(depth - 1), QueueState::Draining);
    assert_eq!(classify(depth - 2), QueueState::Idle);
}

#[test]
fn skip_plan_clears_then_resumes() {
    assert_eq!(skip_plan(), vec![SinkOp::Clear, SinkOp::Play]);
}

#[test]
fn e_after_a_failure_asks_for_nothing() {
    assert_eq!(e("missing.mp3".to_string(), Opening::Failed), None);
}

#[test]
fn e_after_a_success_gives_label_length_and_steps() {
    let loaded = e("a.mp3".to_string(), Opening::Opened(Some(Span::from_millis(10_000))));
    assert_eq!(
        loaded,
        Some(Loaded {
            track: Track { label: "a.mp3".to_string(), duration: Span::from_millis(10_000) },
            plan: load_plan(),
        })
    );
}

#[test]
fn e_shows_an_unknown_length_as_zero() {
    let loaded = e("a.mp3".to_string(), Opening::Opened(None)).unwrap();
    assert_eq!(loaded.track.duration, Span::zero());
    assert_eq!(loaded.track.label, "a.mp3");
    assert_eq!(loaded.plan, load_plan());
}

#[test]
fn no_track_has_no_label_and_no_length() {
    let none = Track::none();
    assert_eq!(none.label, "");
    assert!(none.duration.is_zero());
}
