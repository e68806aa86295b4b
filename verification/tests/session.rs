use mousikes::catalog::ls;
use mousikes::config::SILENCE_PADDING_MS;
use mousikes::engine::{Playback, SinkOp};
use mousikes::session::{advance, choice, Action, Gauge, Input, Key, Session, Status};
use mousikes::span::Span;
use mousikes::track::Track;

fn list(items: &[&str]) -> Vec<String> {
    items.iter().map(|s| s.to_string()).collect()
}

fn reading(paused: bool, depth: usize, millis: u64) -> Playback {
    Playback { paused, depth, position: Span::from_millis(millis) }
}

fn typed(text: &str) -> Session {
    let mut session = Session::new();
    for ch in text.chars() {
        session.dispatch(Input::Press(Key::Char(ch)), &reading(false, 2, 0));
    }
    session
}

#[test]
fn a_session_starts_with_nothing_typed_and_no_track() {
    let session = Session::new();
    assert_eq!(session.query, "");
    assert_eq!(session.now_playing, Track::none());
    assert!(!session.searching());
}

#[test]
fn escape_quits() {
    let mut session = typed("ab");
    assert_eq!(session.dispatch(Input::Press(Key::Esc), &reading(false, 2, 0)), Action::Quit);
    assert_eq!(session.query, "ab");
}

#[test]
fn enter_with_nothing_typed_toggles_pause() {
    let mut session = Session::new();
    assert_eq!(session.dispatch(Input::Press(Key::Enter), &reading(false, 2, 0)), Action::Pause);
    assert_eq!(session.dispatch(Input::Press(Key::Enter), &reading(true, 2, 0)), Action::Resume);
    assert_eq!(session.query, "");
}

#[test]
fn enter_with_text_asks_for_a_load_and_clears_the_text() {
    let mut session = typed("b");
    assert_eq!(
        session.dispatch(Input::Press(Key::Enter), &reading(true, 0, 0)),
        Action::Load("b".to_string())
    );
    assert_eq!(session.query, "");
    assert!(!session.searching());
}

#[test]
fn tab_skips() {
    let mut session = Session::new();
    let action = session.dispatch(Input::Press(Key::Tab), &reading(true, 2, 0));
    assert_eq!(action, Action::Skip);
    assert_eq!(action.plan(), vec![SinkOp::Clear, SinkOp::Play]);
}

#[test]
fn up_and_down_change_the_volume() {
    let mut session = Session::new();
    assert_eq!(session.dispatch(Input::Press(Key::Up), &reading(false, 2, 0)), Action::Louder);
    assert_eq!(session.dispatch(Input::Press(Key::Down), &reading(false, 2, 0)), Action::Quieter);
    assert_eq!(Action::Louder.plan(), Vec::<SinkOp>::new());
    assert_eq!(Action::Quieter.plan(), Vec::<SinkOp>::new());
}

#[test]
fn up_pressed_many_times_asks_for_one_step_each_time() {
    let mut session = Session::new();
    for _ in 0..64 {
        let action = session.dispatch(Input::Press(Key::Up), &reading(false, 2, 0));
        assert_eq!(action, Action::Louder);
        assert_eq!(action.plan(), Vec::<SinkOp>::new());
    }
    assert_eq!(session, Session::new());
}

#[test]
fn left_pauses_a_running_output() {
    let mut session = Session::new();
    let action = session.dispatch(Input::Press(Key::Left), &reading(false, 2, 7000));
    assert_eq!(action, Action::Pause);
    assert_eq!(action.plan(), vec![SinkOp::Pause]);
}

#[test]
fn left_seeks_back_in_a_paused_output() {
    let mut session = Session::new();
    let action = session.dispatch(Input::Press(Key::Left), &reading(true, 2, 7000));
    assert_eq!(action, Action::Seek(Span::from_millis(2000)));
    assert_eq!(action.plan(), vec![SinkOp::Seek(Span::from_millis(2000))]);
}

#[test]
fn seeking_back_stops_at_the_start() {
    let mut session = Session::new();
    assert_eq!(
        session.dispatch(Input::Press(Key::Left), &reading(true, 2, 1234)),
        Action::Seek(Span::zero())
    );
    assert_eq!(
        session.dispatch(Input::Press(Key::Left), &reading(true, 2, 0)),
        Action::Seek(Span::zero())
    );
    assert_eq!(
        session.dispatch(Input::Press(Key::Left), &reading(true, 2, 5000)),
        Action::Seek(Span::zero())
    );
}

#[test]
fn right_resumes_a_paused_output() {
    let mut session = Session::new();
    let action = session.dispatch(Input::Press(Key::Right), &reading(true, 2, 7000));
    assert_eq!(action, Action::Resume);
    assert_eq!(action.plan(), vec![SinkOp::Play]);
}

#[test]
fn right_seeks_ahead_in_a_running_output() {
    let mut session = Session::new();
    assert_eq!(
        session.dispatch(Input::Press(Key::Right), &reading(false, 2, 7000)),
        Action::Seek(Span::from_millis(12000))
    );
}

#[test]
fn seeking_ahead_holds_at_the_longest_length() {
    let mut session = Session::new();
    let top = Span::new(u64::MAX, 999_999_999);
    let playback = Playback { paused: false, depth: 2, position: Span::new(u64::MAX, 0) };
    assert_eq!(session.dispatch(Input::Press(Key::Right), &playback), Action::Seek(top));
}

#[test]
fn a_character_is_added_to_the_text() {
    let mut session = Session::new();
    assert_eq!(
        session.dispatch(Input::Press(Key::Char('a')), &reading(false, 2, 0)),
        Action::Nothing
    );
    assert_eq!(session.query, "a");
    session.dispatch(Input::Press(Key::Char('\u{e9}')), &reading(false, 2, 0));
    assert_eq!(session.query, "a\u{e9}");
    assert!(session.searching());
}

#[test]
fn backspace_clears_the_whole_text() {
    let mut session = typed("abc");
    assert_eq!(
        session.dispatch(Input::Press(Key::Backspace), &reading(false, 2, 0)),
        Action::Nothing
    );
    assert_eq!(session.query, "");
}

#[test]
fn pasted_text_is_added_as_it_is() {
    let mut session = typed("a");
    assert_eq!(
        session.dispatch(Input::Paste("b c\n".to_string()), &reading(false, 2, 0)),
        Action::Nothing
    );
    assert_eq!(session.query, "ab c\n");
}

#[test]
fn other_input_changes_nothing() {
    let mut session = typed("a");
    let before = session.clone();
    assert_eq!(session.dispatch(Input::Press(Key::Other), &reading(true, 1, 0)), Action::Nothing);
    assert_eq!(session.dispatch(Input::Other, &reading(true, 1, 0)), Action::Nothing);
    assert_eq!(session, before);
    assert_eq!(Action::Nothing.plan(), Vec::<SinkOp>::new());
    assert_eq!(Action::Quit.plan(), Vec::<SinkOp>::new());
    assert_eq!(Action::Load("a".to_string()).plan(), Vec::<SinkOp>::new());
}

#[test]
fn dispatch_leaves_the_track_alone() {
    let mut session = Session::new();
    let track = Track { label: "a.mp3".to_string(), duration: Span::from_millis(10_000) };
    session.loaded(Some(track.clone()));
    for input in [
        Input::Press(Key::Enter),
        Input::Press(Key::Tab),
        Input::Press(Key::Char('x')),
        Input::Press(Key::Enter),
        Input::Paste("y".to_string()),
        Input::Press(Key::Backspace),
    ] {
        session.dispatch(input, &reading(false, 2, 0));
        assert_eq!(session.now_playing, track);
    }
}

#[test]
fn loaded_takes_a_track_and_keeps_the_old_one_after_a_failure() {
    let mut session = typed("q");
    let first = Track { label: "a.mp3".to_string(), duration: Span::from_millis(10_000) };
    session.loaded(Some(first.clone()));
    assert_eq!(session.now_playing, first);
    assert_eq!(session.query, "q");
    session.loaded(None);
    assert_eq!(session.now_playing, first);
    let second = Track { label: "b.mp3".to_string(), duration: Span::zero() };
    session.loaded(Some(second.clone()));
    assert_eq!(session.now_playing, second);
}

#[test]
fn status_signs() {
    assert_eq!(Status::Paused.symbol(), '=');
    assert_eq!(Status::Playing.symbol(), '+');
    assert_eq!(Status::Empty.symbol(), '-');
}

#[test]
fn render_tells_the_status() {
    let session = Session::new();
    let files = Vec::new();
    assert_eq!(session.render(&reading(true, 0, 0), &files).status, Status::Paused);
    assert_eq!(session.render(&reading(true, 2, 0), &files).status, Status::Paused);
    assert_eq!(session.render(&reading(false, 2, 0), &files).status, Status::Playing);
    assert_eq!(session.render(&reading(false, 1, 0), &files).status, Status::Playing);
    assert_eq!(session.render(&reading(false, 0, 0), &files).status, Status::Empty);
}

#[test]
fn render_shows_the_label_and_the_progress() {
    let mut session = Session::new();
    session.loaded(Some(Track { label: "a.mp3".to_string(), duration: Span::from_millis(10_000) }));
    let snapshot = session.render(&reading(false, 2, 3500), &list(&["zzz"]));
    assert!(!snapshot.searching);
    assert_eq!(snapshot.text, "a.mp3");
    assert_eq!(
        snapshot.gauge,
        Some(Gauge { elapsed: Span::from_millis(3500), total: Span::from_millis(10_000) })
    );
    assert_eq!(snapshot.gauge.unwrap().elapsed.secs(), 3);
    assert_eq!(snapshot.gauge.unwrap().total.secs(), 10);
}

#[test]
fn render_keeps_the_label_and_hides_the_progress_while_only_the_padding_is_left() {
    let mut session = Session::new();
    session.loaded(Some(Track { label: "a.mp3".to_string(), duration: Span::from_millis(10_000) }));
    let snapshot = session.render(&reading(false, 1, 1000), &Vec::new());
    assert_eq!(snapshot.text, "a.mp3");
    assert!(!snapshot.searching);
    assert_eq!(snapshot.gauge, None);
    assert_eq!(snapshot.status, Status::Playing);
    let idle = session.render(&reading(false, 0, 0), &Vec::new());
    assert_eq!(idle.text, "a.mp3");
    assert!(idle.gauge.is_some());
}

#[test]
fn render_shows_the_label_at_every_depth_while_nothing_is_typed() {
    let mut session = Session::new();
    session.loaded(Some(Track { label: "a.mp3".to_string(), duration: Span::zero() }));
    let files = list(&["zzz", "a.mp3"]);
    for depth in 0..4 {
        for paused in [false, true] {
            let snapshot = session.render(&reading(paused, depth, 0), &files);
            assert_eq!(snapshot.text, "a.mp3");
            assert!(!snapshot.searching);
        }
    }
}

#[test]
fn render_shows_the_match_while_searching_even_in_the_padding() {
    let session = typed("b");
    let files = list(&["a.mp3", "b.mp3"]);
    let snapshot = session.render(&reading(false, 1, 0), &files);
    assert!(snapshot.searching);
    assert_eq!(snapshot.text, "b.mp3");
    assert_eq!(snapshot.gauge, None);
    let unmatched = typed("zz").render(&reading(false, 2, 0), &files);
    assert_eq!(unmatched.text, "zz");
}

#[test]
fn search_then_backspace_shows_the_label_again() {
    let files = ls(list(&["a.mp3", "b.mp3"]));
    for depth in 0..3 {
        let playback = reading(false, depth, 0);
        let mut session = Session::new();
        session.loaded(Some(Track { label: "L".to_string(), duration: Span::from_millis(10_000) }));
        session.dispatch(Input::Press(Key::Char('b')), &playback);
        let typing = session.render(&playback, &files);
        assert_eq!(typing.text, "b.mp3");
        assert!(typing.searching);
        assert_eq!(session.dispatch(Input::Press(Key::Backspace), &playback), Action::Nothing);
        assert_eq!(session.query, "");
        let after = session.render(&playback, &files);
        assert_eq!(after.text, "L");
        assert!(!after.searching);
    }
}

#[test]
fn choice_gives_the_entry_that_was_drawn() {
    let files = list(&["a.mp3", "b.mp3", "c.mp3"]);
    assert_eq!(choice(&reading(false, 0, 0), &files, 0), Some("a.mp3".to_string()));
    assert_eq!(choice(&reading(false, 0, 0), &files, 2), Some("c.mp3".to_string()));
}

#[test]
fn choice_gives_nothing_unless_the_output_runs_empty() {
    let files = list(&["a.mp3", "b.mp3"]);
    assert_eq!(choice(&reading(false, 1, 0), &files, 1), None);
    assert_eq!(choice(&reading(false, 2, 0), &files, 1), None);
    assert_eq!(choice(&reading(false, 0, 0), &Vec::new(), 0), None);
    assert_eq!(choice(&reading(false, 0, 0), &Vec::new(), 5), None);
}

#[test]
fn a_paused_output_is_never_given_a_track() {
    let files = list(&["a.mp3", "b.mp3"]);
    let mut rng = rand::rng();
    for depth in 0..4 {
        assert_eq!(choice(&reading(true, depth, 0), &files, 0), None);
        assert_eq!(advance(&reading(true, depth, 0), &files, &mut rng), None);
    }
}

#[test]
fn advance_draws_an_entry_of_the_catalog() {
    let files = list(&["a.mp3", "b.mp3", "c.mp3"]);
    let mut rng = rand::rng();
    let mut seen = [false; 3];
    for _ in 0..400 {
        let request = advance(&reading(false, 0, 0), &files, &mut rng).unwrap();
        let at = files.iter().position(|f| *f == request).unwrap();
        seen[at] = true;
    }
    assert_eq!(seen, [true, true, true]);
}

#[test]
fn advance_on_a_catalog_of_one_gives_that_one() {
    let files = list(&["only.mp3"]);
    let mut rng = rand::rng();
    for _ in 0..50 {
        assert_eq!(advance(&reading(false, 0, 0), &files, &mut rng), Some("only.mp3".to_string()));
    }
}

#[test]
fn advance_waits_while_anything_is_queued_or_nothing_is_found() {
    let files = list(&["a.mp3"]);
    let mut rng = rand::rng();
    assert_eq!(advance(&reading(false, 2, 0), &files, &mut rng), None);
    assert_eq!(advance(&reading(false, 1, 0), &files, &mut rng), None);
    assert_eq!(advance(&reading(false, 0, 0), &Vec::new(), &mut rng), None);
}

#[test]
fn a_skip_is_followed_by_one_load() {
    let files = list(&["a.mp3"]);
    let mut rng = rand::rng();
    let mut session = Session::new();
    let mut playback = reading(true, 2, 4000);
    let action = session.dispatch(Input::Press(Key::Tab), &playback);
    for op in action.plan() {
        match op {
            SinkOp::Clear => {
                playback.depth = 0;
                playback.paused = true;
            }
            SinkOp::Play => playback.paused = false,
            SinkOp::Pause => playback.paused = true,
            SinkOp::AppendTrack | SinkOp::AppendPadding(_) => playback.depth += 1,
            SinkOp::Seek(_) => {}
        }
    }
    assert_eq!(playback.depth, 0);
    assert!(!playback.paused);
    assert_eq!(advance(&playback, &files, &mut rng), Some("a.mp3".to_string()));
    playback.depth = 2;
    assert_eq!(advance(&playback, &files, &mut rng), None);
}

#[test]
fn a_track_runs_out_before_the_next_is_asked_for() {
    let files = list(&["a.mp3"]);
    let mut rng = rand::rng();
    let track_secs = 10;
    let padding_secs = SILENCE_PADDING_MS / 1000;
    let mut asked_at = Vec::new();
    let mut loaded_at = 0;
    for second in 0..=(track_secs + padding_secs + 1) {
        let played = second - loaded_at;
        let depth = if played < track_secs {
            2
        } else if played < track_secs + padding_secs {
            1
        } else {
            0
        };
        if advance(&reading(false, depth, 0), &files, &mut rng).is_some() {
            asked_at.push(second);
            loaded_at = second;
        }
    }
    assert_eq!(asked_at, vec![track_secs + padding_secs]);
}
