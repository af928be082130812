//! The drill screen's adapter decisions around [`crate::session`]: which
//! inbox messages reach the state machine, when a sounding reference must be
//! silenced, how long the reference plays, and the capture facts stamped on
//! an upload.
use vstd::prelude::*;
use vstd::string::*;

use crate::meta::NewSampleMeta;
use crate::session::{Command, Event, SessionState};
use crate::take::Recording;
use crate::theory::{Degree, PitchClass};
use crate::ui::{drill_shortcut, shortcut_spec};

verus! {

/// Each reference note sounds inside a slot of this many milliseconds.
pub const NOTE_SLOT_MS: u32 = 550;

/// The pause after the last reference note before the prompt says "sing".
pub const REFERENCE_TAIL_MS: u32 = 150;

/// A take ends after this long if the singer does not stop it first.
pub const AUTO_STOP_MS: u32 = 6000;

/// Messages into the drill's control loop. The timer messages carry the
/// generation of the step that scheduled them.
pub enum DrillMsg<T> {
    /// A gesture, already in the session's vocabulary.
    Ui(Event<T>),
    /// The arpeggio finished sounding.
    ReferenceDone(u64),
    /// The auto-stop timer fired.
    AutoStop(u64),
}

/// Whether acting on `command` begins a new timer-backed step, so that
/// timers of the step before go stale: the arpeggio always (it is restarted
/// even when it fails to sound), the mic only once it has opened, and
/// closing the mic always (it cancels the auto-stop).
pub open spec fn bumps_generation(command: Command, started: bool) -> bool {
    match command {
        Command::PlayArpeggio(_) | Command::StopCapture => true,
        Command::StartCapture => started,
        _ => false,
    }
}

/// What the control loop does after acting on one command: the generation
/// from then on, the timer to schedule (delay in milliseconds and the
/// message it sends), and an event to feed back to the session.
pub struct AfterCommand<T> {
    pub generation: u64,
    pub timer: Option<(u32, DrillMsg<T>)>,
    pub follow_up: Option<Event<T>>,
}

/// The bookkeeping after acting on `command` in generation `generation`,
/// where `started` says whether its outside work began (the arpeggio
/// sounded, the mic opened; ignored for the other commands). A sounding
/// arpeggio schedules its end, an open mic its auto-stop, both tagged with
/// the new generation; a reference or mic that could not start resets the
/// drill.
pub fn after_command<T>(generation: u64, command: &Command, started: bool) -> (r: AfterCommand<T>)
    requires
        generation < u64::MAX,
    ensures
        r.generation == (if bumps_generation(*command, started) {
            generation + 1
        } else {
            generation as int
        }),
        r.timer == (match *command {
            Command::PlayArpeggio(_) => if started {
                Some(((4 * NOTE_SLOT_MS + REFERENCE_TAIL_MS) as u32, DrillMsg::<T>::ReferenceDone(r.generation)))
            } else {
                None
            },
            Command::StartCapture => if started {
                Some((AUTO_STOP_MS, DrillMsg::<T>::AutoStop(r.generation)))
            } else {
                None
            },
            _ => None,
        }),
        r.follow_up == (if !started && (*command is PlayArpeggio || *command is StartCapture) {
            Some(Event::<T>::Reset)
        } else {
            None
        }),
{
    match command {
        Command::PlayArpeggio(_) => {
            let next = generation + 1;
            if started {
                AfterCommand {
                    generation: next,
                    timer: Some((reference_done_after_ms(4), DrillMsg::ReferenceDone(next))),
                    follow_up: None,
                }
            } else {
                AfterCommand { generation: next, timer: None, follow_up: Some(Event::Reset) }
            }
        },
        Command::StartCapture => {
            if started {
                let next = generation + 1;
                AfterCommand {
                    generation: next,
                    timer: Some((AUTO_STOP_MS, DrillMsg::AutoStop(next))),
                    follow_up: None,
                }
            } else {
                AfterCommand { generation, timer: None, follow_up: Some(Event::Reset) }
            }
        },
        Command::StopCapture => AfterCommand { generation: generation + 1, timer: None, follow_up: None },
        _ => AfterCommand { generation, timer: None, follow_up: None },
    }
}

/// The event a message delivers when the current generation is
/// `generation`: gestures always; a timer only when it belongs to the
/// current step (one from a cancelled or superseded step is dropped).
pub open spec fn msg_event_spec<T>(msg: DrillMsg<T>, generation: u64) -> Option<Event<T>> {
    match msg {
        DrillMsg::Ui(e) => Some(e),
        DrillMsg::ReferenceDone(tag) => if tag == generation {
            Some(Event::ReferenceDone)
        } else {
            None
        },
        DrillMsg::AutoStop(tag) => if tag == generation {
            Some(Event::Stop)
        } else {
            None
        },
    }
}

/// Which event, if any, a message feeds to the session.
pub fn msg_event<T>(msg: DrillMsg<T>, generation: u64) -> (r: Option<Event<T>>)
    ensures
        r == msg_event_spec(msg, generation),
{
    match msg {
        DrillMsg::Ui(e) => Some(e),
        DrillMsg::ReferenceDone(tag) => if tag == generation {
            Some(Event::ReferenceDone)
        } else {
            None
        },
        DrillMsg::AutoStop(tag) => if tag == generation {
            Some(Event::Stop)
        } else {
            None
        },
    }
}

/// The drill event a key press sends: none while the other screen is up,
/// for a held-down key, with a modifier, or while typing in a text field;
/// otherwise the drill screen's shortcut for `state`.
pub fn key_event<T>(
    on_drill_screen: bool,
    repeat: bool,
    modifier: bool,
    typing: bool,
    state: &SessionState<T>,
    key: &str,
    tonic: PitchClass,
    degree: Degree,
    tonic_octave: i32,
) -> (r: Option<Event<T>>)
    ensures
        r == (if on_drill_screen && !repeat && !modifier && !typing {
            shortcut_spec(*state, key@, tonic, degree, tonic_octave)
        } else {
            None
        }),
{
    if !on_drill_screen || repeat || modifier || typing {
        None
    } else {
        drill_shortcut(state, key, tonic, degree, tonic_octave)
    }
}

/// Whether `event` must silence the arpeggio before the session sees it: a
/// stop or a reset while the reference is sounding (the session issues no
/// command for sound it never asked to keep).
pub fn silences_reference<T>(event: &Event<T>, state: &SessionState<T>) -> (r: bool)
    ensures
        r == ((event is Stop || event is Reset) && state is PlayingReference),
{
    let stops = match event {
        Event::Stop | Event::Reset => true,
        _ => false,
    };
    stops && match state {
        SessionState::PlayingReference { .. } => true,
        _ => false,
    }
}

/// When the reference of `notes` notes has finished, in milliseconds from
/// its start: one slot per note and the tail.
pub fn reference_done_after_ms(notes: u32) -> (r: u32)
    requires
        notes * NOTE_SLOT_MS + REFERENCE_TAIL_MS <= u32::MAX,
    ensures
        r == notes * NOTE_SLOT_MS + REFERENCE_TAIL_MS,
{
    notes * NOTE_SLOT_MS + REFERENCE_TAIL_MS
}

/// The metadata the session asked to persist, stamped with the recorded
/// take's actual capture rate and device (the server decodes the PCM at
/// that rate); an error when no take was recorded.
pub fn stamp_take<T>(meta: NewSampleMeta, take: Option<&Recording<T>>) -> (r: Result<
    NewSampleMeta,
    String,
>)
    ensures
        take is None <==> r is Err,
        r matches Err(m) ==> m@ == "no recorded take to save"@,
        r matches Ok(m) ==> {
            &&& m.audio.sample_rate == take.unwrap().sample_rate
            &&& m.capture.device_label == take.unwrap().device_label
            &&& m.capture.user_agent == meta.capture.user_agent
            &&& m.capture.app_git_sha == meta.capture.app_git_sha
            &&& m.drill == meta.drill
            &&& m.self_rating == meta.self_rating
            &&& m.note == meta.note
        },
{
    match take {
        Some(recording) => {
            let mut m = meta;
            m.audio.sample_rate = recording.sample_rate;
            m.capture.device_label = recording.device_label.clone();
            Ok(m)
        },
        None => Err(String::from_str("no recorded take to save")),
    }
}

} // verus!
