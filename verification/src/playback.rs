//! Playback state machine: `Starting -> Rendering -> (Draining |
//! Cancelled) -> Stopped`. The loop driver performs the outside work
//! (spawning the decoder, reading frames, writing to the terminal,
//! polling for a key) and feeds each observation back as an event; every
//! decision of the loop is taken here.

use vstd::prelude::*;

verus! {

/// The lifecycle states of one playback session. `Rendering`,
/// `Draining`, `Cancelled` and `Stopped` carry the number of frames
/// fully rendered so far.
#[derive(Clone, Copy, PartialEq, Eq, Structural, Debug)]
pub enum PlaybackState {
    /// Geometry resolved, decoder and terminal being set up.
    Starting,
    /// Reading, mapping, encoding and writing frames.
    Rendering { frames: u64 },
    /// The stream ended (a short or failed read): normal completion.
    Draining { frames: u64 },
    /// A quit key was observed: early exit.
    Cancelled { frames: u64 },
    /// Terminal and decoder released; `cancelled` records which exit was
    /// taken.
    Stopped { frames: u64, cancelled: bool },
}

/// What the loop driver observed since the last step.
#[derive(Clone, Copy, PartialEq, Eq, Structural, Debug)]
pub enum PlaybackEvent {
    /// Decoder spawned and terminal prepared.
    Started,
    /// One full frame was read, rendered and written.
    FrameRendered,
    /// The stream delivered fewer bytes than one frame (or failed).
    EndOfStream,
    /// The cancellation key was observed by the per-frame poll.
    QuitKey,
    /// The per-frame poll saw no recognized key.
    PollIdle,
    /// Terminal restored and decoder terminated.
    TeardownDone,
}

/// What the loop driver must do next.
#[derive(Clone, Copy, PartialEq, Eq, Structural, Debug)]
pub enum PlaybackAction {
    /// Read the next frame, render it, write it, then poll for a key.
    ReadFrame,
    /// Restore the terminal and terminate the decoder.
    Teardown,
    /// Nothing: the session is over.
    Done,
}

/// The transition table: events only ever advance the machine along
/// `Starting -> Rendering -> (Draining | Cancelled) -> Stopped`;
/// unexpected events leave the state unchanged. Rendering a frame
/// increments the frame count (saturating); end-of-stream and the quit
/// key freeze it.
pub open spec fn spec_step(s: PlaybackState, e: PlaybackEvent) -> PlaybackState {
    match (s, e) {
        (PlaybackState::Starting, PlaybackEvent::Started)
            => PlaybackState::Rendering { frames: 0 },
        (PlaybackState::Rendering { frames }, PlaybackEvent::FrameRendered)
            => PlaybackState::Rendering {
                frames: if frames < u64::MAX { (frames + 1) as u64 } else { frames },
            },
        (PlaybackState::Rendering { frames }, PlaybackEvent::EndOfStream)
            => PlaybackState::Draining { frames },
        (PlaybackState::Rendering { frames }, PlaybackEvent::QuitKey)
            => PlaybackState::Cancelled { frames },
        (PlaybackState::Rendering { frames }, PlaybackEvent::PollIdle)
            => PlaybackState::Rendering { frames },
        (PlaybackState::Draining { frames }, PlaybackEvent::TeardownDone)
            => PlaybackState::Stopped { frames, cancelled: false },
        (PlaybackState::Cancelled { frames }, PlaybackEvent::TeardownDone)
            => PlaybackState::Stopped { frames, cancelled: true },
        _ => s,
    }
}

/// The action owed after reaching state `s`: keep reading while
/// rendering, tear down once the stream ended or the user cancelled,
/// nothing once stopped or before the session started.
pub open spec fn spec_action(s: PlaybackState) -> PlaybackAction {
    match s {
        PlaybackState::Rendering { .. } => PlaybackAction::ReadFrame,
        PlaybackState::Draining { .. } => PlaybackAction::Teardown,
        PlaybackState::Cancelled { .. } => PlaybackAction::Teardown,
        _ => PlaybackAction::Done,
    }
}

/// Advance the machine by one observed event and report what to do next.
pub fn step(s: PlaybackState, e: PlaybackEvent) -> (r: (PlaybackState, PlaybackAction))
    ensures
        r.0 == spec_step(s, e),
        r.1 == spec_action(spec_step(s, e)),
{
    let next = match (s, e) {
        (PlaybackState::Starting, PlaybackEvent::Started)
            => PlaybackState::Rendering { frames: 0 },
        (PlaybackState::Rendering { frames }, PlaybackEvent::FrameRendered)
            => PlaybackState::Rendering {
                frames: if frames < u64::MAX { frames + 1 } else { frames },
            },
        (PlaybackState::Rendering { frames }, PlaybackEvent::EndOfStream)
            => PlaybackState::Draining { frames },
        (PlaybackState::Rendering { frames }, PlaybackEvent::QuitKey)
            => PlaybackState::Cancelled { frames },
        (PlaybackState::Rendering { frames }, PlaybackEvent::PollIdle)
            => PlaybackState::Rendering { frames },
        (PlaybackState::Draining { frames }, PlaybackEvent::TeardownDone)
            => PlaybackState::Stopped { frames, cancelled: false },
        (PlaybackState::Cancelled { frames }, PlaybackEvent::TeardownDone)
            => PlaybackState::Stopped { frames, cancelled: true },
        _ => s,
    };
    let action = match next {
        PlaybackState::Rendering { .. } => PlaybackAction::ReadFrame,
        PlaybackState::Draining { .. } => PlaybackAction::Teardown,
        PlaybackState::Cancelled { .. } => PlaybackAction::Teardown,
        _ => PlaybackAction::Done,
    };
    (next, action)
}

/// Once the machine leaves `Rendering`, no event ever renders another
/// frame or returns to `Rendering`: cancellation and end-of-stream are
/// final, and the frame count is frozen.
pub proof fn lemma_exit_is_final(s: PlaybackState, e: PlaybackEvent)
    requires
        !(s is Rendering),
        !(s is Starting),
    ensures
        !(spec_step(s, e) is Rendering),
        frames_of(spec_step(s, e)) == frames_of(s),
{
}

/// The frame count carried by a state (0 before rendering begins).
pub open spec fn frames_of(s: PlaybackState) -> u64 {
    match s {
        PlaybackState::Starting => 0,
        PlaybackState::Rendering { frames } => frames,
        PlaybackState::Draining { frames } => frames,
        PlaybackState::Cancelled { frames } => frames,
        PlaybackState::Stopped { frames, .. } => frames,
    }
}

} // verus!
