use video2ascii::playback::{step, PlaybackAction, PlaybackEvent, PlaybackState};

#[test]
fn three_frames_then_end_of_stream_drains() {
    // A stream that delivers exactly 3 full frames then a short read
    // must render exactly 3 frames and exit via Draining, not
    // Cancelled.
    let (s, a) = step(PlaybackState::Starting, PlaybackEvent::Started);
    assert_eq!(s, PlaybackState::Rendering { frames: 0 });
    assert_eq!(a, PlaybackAction::ReadFrame);

    let mut s = s;
    for expected in 1..=3u64 {
        let (next, a) = step(s, PlaybackEvent::FrameRendered);
        assert_eq!(next, PlaybackState::Rendering { frames: expected });
        assert_eq!(a, PlaybackAction::ReadFrame);
        s = next;
    }

    let (s, a) = step(s, PlaybackEvent::EndOfStream);
    assert_eq!(s, PlaybackState::Draining { frames: 3 });
    assert_eq!(a, PlaybackAction::Teardown);

    let (s, a) = step(s, PlaybackEvent::TeardownDone);
    assert_eq!(s, PlaybackState::Stopped { frames: 3, cancelled: false });
    assert_eq!(a, PlaybackAction::Done);
}

#[test]
fn quit_after_two_frames_cancels_and_tears_down() {
    // A quit key observed after frame 2 of an endless stream must stop
    // rendering before a third frame and still run the teardown.
    let (mut s, _) = step(PlaybackState::Starting, PlaybackEvent::Started);
    for _ in 0..2 {
        let (next, _) = step(s, PlaybackEvent::FrameRendered);
        s = next;
    }
    assert_eq!(s, PlaybackState::Rendering { frames: 2 });

    let (s, a) = step(s, PlaybackEvent::QuitKey);
    assert_eq!(s, PlaybackState::Cancelled { frames: 2 });
    assert_eq!(a, PlaybackAction::Teardown);

    // The stream may still have frames; the machine no longer renders.
    let (after, a) = step(s, PlaybackEvent::FrameRendered);
    assert_eq!(after, s);
    assert_eq!(a, PlaybackAction::Teardown);

    let (s, a) = step(s, PlaybackEvent::TeardownDone);
    assert_eq!(s, PlaybackState::Stopped { frames: 2, cancelled: true });
    assert_eq!(a, PlaybackAction::Done);
}

#[test]
fn idle_poll_keeps_rendering() {
    let s = PlaybackState::Rendering { frames: 7 };
    let (next, a) = step(s, PlaybackEvent::PollIdle);
    assert_eq!(next, s);
    assert_eq!(a, PlaybackAction::ReadFrame);
}

#[test]
fn unexpected_events_leave_state_unchanged() {
    let cases = [
        (PlaybackState::Starting, PlaybackEvent::FrameRendered),
        (PlaybackState::Starting, PlaybackEvent::QuitKey),
        (PlaybackState::Draining { frames: 1 }, PlaybackEvent::FrameRendered),
        (PlaybackState::Stopped { frames: 1, cancelled: false }, PlaybackEvent::Started),
    ];
    for &(s, e) in cases.iter() {
        let (next, _) = step(s, e);
        assert_eq!(next, s);
    }
}
