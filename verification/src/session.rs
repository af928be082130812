//! The drill state machine: events in, state and commands out.
//!
//! Deliberately ignorant of everything real: no audio, no network, no clock.
//! The pitch track a take produced is carried as opaque values of type `T`
//! (whatever the adapter's tracker emits), and every pitch the drill names is
//! an absolute note number (see [`crate::theory`]).
use vstd::prelude::*;

use crate::meta::{CaptureContext, DrillMeta, NewSampleMeta};
use crate::theory::{
    arpeggio_fits, arpeggio_note_numbers, degree_fits, degree_note, degree_note_number, note_spec, Degree,
    Key,
};

verus! {

/// Where a drill has got to. Every field a later stage needs is carried
/// forward rather than recomputed, so a take can never be saved against a
/// target other than the one the singer was shown.
#[derive(Debug, Clone, PartialEq)]
pub enum SessionState<T> {
    /// Nothing in flight; waiting for [`Event::Start`].
    Idle,
    /// The establishing arpeggio is sounding; the target is not played.
    PlayingReference { key: Key, degree: Degree, tonic_octave: i32, target_note: i32 },
    /// The mic is open. `stopping` records that a stop has been acted on and
    /// the recorded track is awaited, so a second stop is not passed on.
    Listening { key: Key, degree: Degree, tonic_octave: i32, target_note: i32, stopping: bool },
    /// The take is over and being rated and annotated.
    Review {
        key: Key,
        degree: Degree,
        tonic_octave: i32,
        target_note: i32,
        track: Vec<T>,
        self_rating: Option<u8>,
        note: Option<String>,
    },
    /// Upload in flight; the take is held intact so a failure can drop back
    /// into review with everything the user entered.
    Saving {
        key: Key,
        degree: Degree,
        tonic_octave: i32,
        target_note: i32,
        track: Vec<T>,
        self_rating: u8,
        note: Option<String>,
    },
    /// Saved, with the id the server minted.
    Saved { id: String },
}

/// Everything that can happen to a drill.
#[derive(Debug, Clone, PartialEq)]
pub enum Event<T> {
    /// Start a drill on this degree with the tonic in `tonic_octave`.
    Start { key: Key, degree: Degree, tonic_octave: i32 },
    /// The arpeggio finished sounding.
    ReferenceDone,
    /// Stop: spacebar, auto-stop timer, or cancelling the arpeggio.
    Stop,
    /// The adapter has run the recorded audio through the tracker.
    TrackReady(Vec<T>),
    /// Self-rating; only 1..=5 is accepted.
    Rate(u8),
    /// The note field changed.
    NoteEdited(String),
    /// Play the target pitch, after the take.
    HearTarget,
    /// Save the take.
    Save,
    /// The server accepted the upload and minted this id.
    SaveOk { id: String },
    /// The upload failed; the message is for the user.
    SaveErr(String),
    /// Throw the take away and go back to idle.
    Reset,
}

/// What the adapter must do, as plain data.
#[derive(Debug, Clone, PartialEq)]
pub enum Command {
    /// Sound the do-mi-sol-do arpeggio at these note numbers, then report
    /// [`Event::ReferenceDone`].
    PlayArpeggio([i32; 4]),
    /// Open the mic and start the live trace.
    StartCapture,
    /// Close the mic and report the recorded track.
    StopCapture,
    /// Sound this note number.
    PlayTone(i32),
    /// Upload this metadata with the recorded audio; report the outcome.
    Persist(NewSampleMeta),
}

/// The drill's control plane.
#[derive(Debug, Clone)]
pub struct DrillSession<T> {
    state: SessionState<T>,
    capture: CaptureContext,
    last_error: Option<String>,
}

/// The self-ratings the archive schema accepts.
pub open spec fn rating_ok(r: u8) -> bool {
    1 <= r <= 5
}

/// The state after `event` in state `s`. Events that make no sense in `s`,
/// and rejected ones, leave it unchanged.
pub open spec fn next_state<T>(s: SessionState<T>, event: Event<T>) -> SessionState<T> {
    match (s, event) {
        (SessionState::Idle, Event::Start { key, degree, tonic_octave })
        | (SessionState::Saved { .. }, Event::Start { key, degree, tonic_octave }) => SessionState::PlayingReference {
            key,
            degree,
            tonic_octave,
            target_note: degree_note(key, degree, tonic_octave as int) as i32,
        },
        (
            SessionState::PlayingReference { key, degree, tonic_octave, target_note },
            Event::ReferenceDone,
        ) => SessionState::Listening { key, degree, tonic_octave, target_note, stopping: false },
        (SessionState::PlayingReference { .. }, Event::Stop) => SessionState::Idle,
        (
            SessionState::Listening { key, degree, tonic_octave, target_note, stopping },
            Event::Stop,
        ) => SessionState::Listening { key, degree, tonic_octave, target_note, stopping: true },
        (
            SessionState::Listening { key, degree, tonic_octave, target_note, stopping },
            Event::TrackReady(track),
        ) => SessionState::Review {
            key,
            degree,
            tonic_octave,
            target_note,
            track,
            self_rating: None,
            note: None,
        },
        (
            SessionState::Review { key, degree, tonic_octave, target_note, track, self_rating, note },
            Event::Rate(rating),
        ) => SessionState::Review {
            key,
            degree,
            tonic_octave,
            target_note,
            track,
            self_rating: if rating_ok(rating) {
                Some(rating)
            } else {
                self_rating
            },
            note,
        },
        (
            SessionState::Review { key, degree, tonic_octave, target_note, track, self_rating, note },
            Event::NoteEdited(text),
        ) => SessionState::Review {
            key,
            degree,
            tonic_octave,
            target_note,
            track,
            self_rating,
            note: if text@.len() == 0 {
                None
            } else {
                Some(text)
            },
        },
        (
            SessionState::Review {
                key,
                degree,
                tonic_octave,
                target_note,
                track,
                self_rating: Some(rating),
                note,
            },
            Event::Save,
        ) => SessionState::Saving {
            key,
            degree,
            tonic_octave,
            target_note,
            track,
            self_rating: rating,
            note,
        },
        (SessionState::Saving { .. }, Event::SaveOk { id }) => SessionState::Saved { id },
        (
            SessionState::Saving { key, degree, tonic_octave, target_note, track, self_rating, note },
            Event::SaveErr(message),
        ) => SessionState::Review {
            key,
            degree,
            tonic_octave,
            target_note,
            track,
            self_rating: Some(self_rating),
            note,
        },
        (_, Event::Reset) => SessionState::Idle,
        (s, _) => s,
    }
}

/// Whether `event` in state `s` changes anything at all (state, error or
/// commands): the transitions the machine accepts.
pub open spec fn accepts<T>(s: SessionState<T>, event: Event<T>) -> bool {
    match (s, event) {
        (SessionState::Idle, Event::Start { .. }) => true,
        (SessionState::Saved { .. }, Event::Start { .. }) => true,
        (SessionState::PlayingReference { .. }, Event::ReferenceDone) => true,
        (SessionState::PlayingReference { .. }, Event::Stop) => true,
        (SessionState::Listening { .. }, Event::Stop) => true,
        (SessionState::Listening { .. }, Event::TrackReady(_)) => true,
        (SessionState::Review { .. }, Event::Rate(_)) => true,
        (SessionState::Review { .. }, Event::NoteEdited(_)) => true,
        (SessionState::Review { .. }, Event::HearTarget) => true,
        (SessionState::Review { self_rating: Some(_), .. }, Event::Save) => true,
        (SessionState::Saving { .. }, Event::SaveOk { .. }) => true,
        (SessionState::Saving { .. }, Event::SaveErr(_)) => true,
        (_, Event::Reset) => true,
        _ => false,
    }
}

/// The last-error message after `event` in state `s`: set by a failed save,
/// cleared by starting, saving, a successful save or a reset, otherwise kept.
pub open spec fn next_error<T>(s: SessionState<T>, event: Event<T>, err: Option<String>) -> Option<String> {
    match (s, event) {
        (SessionState::Idle, Event::Start { .. }) => None,
        (SessionState::Saved { .. }, Event::Start { .. }) => None,
        (SessionState::Review { self_rating: Some(_), .. }, Event::Save) => None,
        (SessionState::Saving { .. }, Event::SaveOk { .. }) => None,
        (SessionState::Saving { .. }, Event::SaveErr(message)) => Some(message),
        (_, Event::Reset) => None,
        _ => err,
    }
}

/// `cmds` is exactly what the machine asks the adapter to do for `event` in
/// state `s`, stamping uploads with `ctx`.
pub open spec fn emits<T>(s: SessionState<T>, event: Event<T>, ctx: CaptureContext, cmds: Seq<Command>) -> bool {
    match (s, event) {
        (SessionState::Idle, Event::Start { key, degree, tonic_octave })
        | (SessionState::Saved { .. }, Event::Start { key, degree, tonic_octave }) => {
            &&& cmds.len() == 1
            &&& cmds[0] matches Command::PlayArpeggio(notes) && notes@ == arpeggio_notes(
                key,
                tonic_octave as int,
            )
        },
        (SessionState::PlayingReference { .. }, Event::ReferenceDone) => cmds.len() == 1 && cmds[0] == Command::StartCapture,
        (SessionState::Listening { stopping, .. }, Event::Stop) => if stopping {
            cmds.len() == 0
        } else {
            cmds.len() == 1 && cmds[0] == Command::StopCapture
        },
        (SessionState::Review { target_note, .. }, Event::HearTarget) => cmds.len() == 1 && cmds[0] == Command::PlayTone(target_note),
        (
            SessionState::Review {
                key,
                degree,
                tonic_octave,
                target_note,
                track,
                self_rating: Some(rating),
                note,
            },
            Event::Save,
        ) => {
            &&& cmds.len() == 1
            &&& cmds[0] matches Command::Persist(meta) && DrillMeta::is_degree_drill(
                meta.drill,
                key,
                degree,
                target_note,
            ) && ctx.stamps(meta, meta.drill, Some(rating), note)
        },
        (SessionState::Listening { stopping, .. }, Event::Reset) => if stopping {
            cmds.len() == 0
        } else {
            cmds.len() == 1 && cmds[0] == Command::StopCapture
        },
        _ => cmds.len() == 0,
    }
}

/// Note numbers of the do-mi-sol-do arpeggio for `key` from `tonic_octave`.
pub open spec fn arpeggio_notes(key: Key, tonic_octave: int) -> Seq<i32> {
    let tonic = note_spec(key.tonic, tonic_octave);
    seq![
        tonic as i32,
        (tonic + key.mode.interval(2)) as i32,
        (tonic + 7) as i32,
        (tonic + 12) as i32,
    ]
}

/// The key, degree, tonic octave and target note a state carries, if any.
pub open spec fn target_of<T>(s: SessionState<T>) -> Option<(Key, Degree, i32, i32)> {
    match s {
        SessionState::PlayingReference { key, degree, tonic_octave, target_note } => Some(
            (key, degree, tonic_octave, target_note),
        ),
        SessionState::Listening { key, degree, tonic_octave, target_note, .. } => Some(
            (key, degree, tonic_octave, target_note),
        ),
        SessionState::Review { key, degree, tonic_octave, target_note, .. } => Some(
            (key, degree, tonic_octave, target_note),
        ),
        SessionState::Saving { key, degree, tonic_octave, target_note, .. } => Some(
            (key, degree, tonic_octave, target_note),
        ),
        _ => None,
    }
}

/// Every carried target is the note of the carried degree in the carried key.
pub open spec fn target_consistent<T>(s: SessionState<T>) -> bool {
    match target_of(s) {
        Some((key, degree, tonic_octave, target_note)) => target_note == degree_note(
            key,
            degree,
            tonic_octave as int,
        ),
        None => true,
    }
}

/// The tags a state carries are ones the form can hold: a review's rating,
/// if any, is in 1..=5, a saving take's rating always is, and a note is
/// never empty (clearing the field removes it).
pub open spec fn tags_ok<T>(s: SessionState<T>) -> bool {
    match s {
        SessionState::Review { self_rating, note, .. } => {
            &&& (self_rating matches Some(r) ==> rating_ok(r))
            &&& (note matches Some(n) ==> n@.len() > 0)
        },
        SessionState::Saving { self_rating, note, .. } => {
            &&& rating_ok(self_rating)
            &&& (note matches Some(n) ==> n@.len() > 0)
        },
        _ => true,
    }
}

/// What holds of the session in every reachable state: the carried target
/// is the carried degree's note, the tags are well formed, and an error
/// message stands only while the take is back in review after a failed
/// upload.
pub open spec fn session_ok<T>(s: SessionState<T>, err: Option<String>) -> bool {
    &&& target_consistent(s)
    &&& tags_ok(s)
    &&& (err is Some ==> s is Review)
}

/// The state and last error after feeding `events`, in order, from `s` with
/// last error `err`.
pub open spec fn run<T>(s: SessionState<T>, err: Option<String>, events: Seq<Event<T>>) -> (SessionState<T>, Option<String>)
    decreases events.len(),
{
    if events.len() == 0 {
        (s, err)
    } else {
        let before = run(s, err, events.drop_last());
        (next_state(before.0, events.last()), next_error(before.0, events.last(), before.1))
    }
}

/// Every event of `events`, fed in order from `s`, is one the machine can
/// take where it arrives (see [`event_fits`]).
pub open spec fn run_fits<T>(s: SessionState<T>, err: Option<String>, events: Seq<Event<T>>) -> bool
    decreases events.len(),
{
    events.len() == 0 || (run_fits(s, err, events.drop_last()) && event_fits(
        run(s, err, events.drop_last()).0,
        events.last(),
    ))
}

/// An event the machine can take in state `s` without overflowing: a start
/// it acts on must place its target and its arpeggio, the octave up
/// included, within `i32`.
pub open spec fn event_fits<T>(s: SessionState<T>, event: Event<T>) -> bool {
    match (s, event) {
        (SessionState::Idle, Event::Start { key, degree, tonic_octave })
        | (SessionState::Saved { .. }, Event::Start { key, degree, tonic_octave }) => {
            &&& degree_fits(key, degree, tonic_octave as int)
            &&& arpeggio_fits(key, tonic_octave as int)
        },
        _ => true,
    }
}

/// Reset returns to idle from any state and clears the last error; it closes
/// the mic exactly when the mic is open and no stop has been acted on yet.
pub proof fn lemma_reset_from_anywhere<T>(s: SessionState<T>, err: Option<String>, ctx: CaptureContext, cmds: Seq<Command>)
    ensures
        next_state(s, Event::Reset) == SessionState::<T>::Idle,
        next_error(s, Event::<T>::Reset, err) is None,
        emits(s, Event::Reset, ctx, cmds) <==> (if s matches SessionState::Listening { stopping: false, .. } {
            cmds.len() == 1 && cmds[0] == Command::StopCapture
        } else {
            cmds.len() == 0
        }),
{
}

/// An event the machine does not accept in a state changes nothing: same
/// state, same last error, and no command at all.
pub proof fn lemma_rejected_event_is_ignored<T>(s: SessionState<T>, event: Event<T>, err: Option<String>, ctx: CaptureContext, cmds: Seq<Command>)
    requires
        !accepts(s, event),
    ensures
        next_state(s, event) == s,
        next_error(s, event, err) == err,
        emits(s, event, ctx, cmds) <==> cmds.len() == 0,
{
}

/// A failed upload undoes the save: saving a rated review and then failing
/// gives back exactly the review that was saved, with the failure message
/// as the last error.
pub proof fn lemma_failed_save_restores_review<T>(s: SessionState<T>, message: String, err: Option<String>)
    requires
        s matches SessionState::Review { self_rating: Some(_), .. },
    ensures
        next_state(next_state(s, Event::Save), Event::SaveErr(message)) == s,
        next_error(next_state(s, Event::Save), Event::SaveErr(message), next_error(s, Event::Save, err))
            == Some(message),
{
}

/// Saving is possible exactly when the review carries a rating; without
/// one, Save sends nothing and changes nothing.
pub proof fn lemma_save_needs_a_rating<T>(s: SessionState<T>, err: Option<String>, ctx: CaptureContext, cmds: Seq<Command>)
    requires
        s matches SessionState::Review { self_rating: None, .. },
    ensures
        next_state(s, Event::Save) == s,
        next_error(s, Event::<T>::Save, err) == err,
        emits(s, Event::Save, ctx, cmds) <==> cmds.len() == 0,
{
}

/// A rating outside 1..=5 is dropped and keeps any rating already given; a
/// rating inside replaces it.
pub proof fn lemma_rating_range<T>(s: SessionState<T>, rating: u8)
    requires
        s is Review,
    ensures
        !rating_ok(rating) ==> next_state(s, Event::Rate(rating)) == s,
        rating_ok(rating) ==> (next_state(s, Event::Rate(rating)) matches SessionState::Review {
            self_rating: Some(r),
            ..
        } && r == rating),
{
}

/// The mic is told to close once per take: the first stop while listening
/// emits StopCapture, and from then on stops emit nothing and change nothing.
pub proof fn lemma_stop_closes_capture_once<T>(s: SessionState<T>, ctx: CaptureContext, cmds: Seq<Command>)
    requires
        s matches SessionState::Listening { stopping: false, .. },
    ensures
        emits(s, Event::Stop, ctx, cmds) <==> (cmds.len() == 1 && cmds[0] == Command::StopCapture),
        next_state(s, Event::<T>::Stop) matches SessionState::Listening { stopping: true, .. },
        next_state(next_state(s, Event::<T>::Stop), Event::Stop) == next_state(s, Event::<T>::Stop),
        emits(next_state(s, Event::<T>::Stop), Event::Stop, ctx, cmds) <==> cmds.len() == 0,
        emits(next_state(s, Event::<T>::Stop), Event::Reset, ctx, cmds) <==> cmds.len() == 0,
{
}

/// Once a drill has started, no event changes its key, degree, octave or
/// target until the drill leaves the started states.
pub proof fn lemma_target_is_kept<T>(s: SessionState<T>, event: Event<T>)
    requires
        target_of(s) is Some,
        target_of(next_state(s, event)) is Some,
    ensures
        target_of(next_state(s, event)) == target_of(s),
{
}

/// Every transition keeps the carried target equal to the note of the
/// carried degree in the carried key.
pub proof fn lemma_target_stays_consistent<T>(s: SessionState<T>, event: Event<T>)
    requires
        target_consistent(s),
        event_fits(s, event),
    ensures
        target_consistent(next_state(s, event)),
{
    if let (SessionState::Idle, Event::Start { key, degree, tonic_octave }) = (s, event) {
        crate::theory::Degree::lemma_value_in_scale(degree);
        assert(key.mode.interval(degree.value() - 1) <= 11);
    }
}

/// An upload always carries the target the singer was shown: the persisted
/// drill names the carried key, degree and target, and in a consistent state
/// that target is the degree's note in the key.
pub proof fn lemma_persist_carries_the_shown_target<T>(s: SessionState<T>, ctx: CaptureContext, cmds: Seq<Command>)
    requires
        target_consistent(s),
        emits(s, Event::Save, ctx, cmds),
        s matches SessionState::Review { self_rating: Some(_), .. },
    ensures
        cmds.len() == 1,
        cmds[0] matches Command::Persist(meta) && (match s {
            SessionState::Review { key, degree, tonic_octave, target_note, .. } => {
                &&& DrillMeta::is_degree_drill(meta.drill, key, degree, target_note)
                &&& target_note == degree_note(key, degree, tonic_octave as int)
            },
            _ => false,
        }),
{
}

/// The target tone is only ever played after the singing, from review.
pub proof fn lemma_tone_only_in_review<T>(s: SessionState<T>, event: Event<T>, ctx: CaptureContext, cmds: Seq<Command>, i: int)
    requires
        emits(s, event, ctx, cmds),
        0 <= i < cmds.len(),
        cmds[i] is PlayTone,
    ensures
        s is Review,
        event is HearTarget,
{
}

/// Clearing the note field removes the note rather than keeping it blank.
pub proof fn lemma_empty_note_is_absent<T>(s: SessionState<T>, text: String)
    requires
        s is Review,
        text@.len() == 0,
    ensures
        next_state(s, Event::NoteEdited(text)) matches SessionState::Review { note: None, .. },
{
}

/// Asking to hear the target never changes the drill, in any state: the
/// state (key, degree, octave, target, track, rating and note) and the last
/// error stay as they were; from review it sounds exactly the target note,
/// anywhere else nothing.
pub proof fn lemma_hear_target_changes_nothing<T>(s: SessionState<T>, err: Option<String>, ctx: CaptureContext, cmds: Seq<Command>)
    ensures
        next_state(s, Event::HearTarget) == s,
        next_error(s, Event::<T>::HearTarget, err) == err,
        s matches SessionState::Review { target_note, .. } ==> (emits(s, Event::HearTarget, ctx, cmds)
            <==> cmds =~= seq![Command::PlayTone(target_note)]),
        !(s is Review) ==> (emits(s, Event::HearTarget, ctx, cmds) <==> cmds.len() == 0),
{
}

/// Every step keeps the session's invariant.
pub proof fn lemma_step_keeps_invariant<T>(s: SessionState<T>, event: Event<T>, err: Option<String>)
    requires
        session_ok(s, err),
        event_fits(s, event),
    ensures
        session_ok(next_state(s, event), next_error(s, event, err)),
{
    lemma_target_stays_consistent(s, event);
}

/// From a fresh session, whatever events arrive (each within the machine's
/// arithmetic range), every state reached keeps its target consistent, its
/// ratings in 1..=5 and its notes non-empty, and an error stands only in
/// review.
pub proof fn lemma_invariant_on_every_run<T>(events: Seq<Event<T>>)
    requires
        run_fits(SessionState::<T>::Idle, None, events),
    ensures
        session_ok(run(SessionState::<T>::Idle, None, events).0, run(SessionState::<T>::Idle, None, events).1),
    decreases events.len(),
{
    if events.len() > 0 {
        lemma_invariant_on_every_run(events.drop_last());
        let before = run(SessionState::<T>::Idle, None, events.drop_last());
        lemma_step_keeps_invariant(before.0, events.last(), before.1);
    }
}

/// Every upload the machine asks for is stamped with the capture context
/// the session was made with ([`DrillSession::handle`] keeps that context).
pub proof fn lemma_uploads_carry_the_capture<T>(s: SessionState<T>, event: Event<T>, ctx: CaptureContext, cmds: Seq<Command>, i: int)
    requires
        emits(s, event, ctx, cmds),
        0 <= i < cmds.len(),
        cmds[i] is Persist,
    ensures
        cmds[i] matches Command::Persist(m) && {
            &&& m.audio.sample_rate == ctx.sample_rate
            &&& m.capture.device_label == ctx.device_label
            &&& m.capture.user_agent == ctx.user_agent
            &&& m.capture.app_git_sha == ctx.app_git_sha
        },
{
}

impl<T> DrillSession<T> {
    /// The current state.
    pub closed spec fn state_spec(&self) -> SessionState<T> {
        self.state
    }

    /// The capture context stamped onto every take.
    pub closed spec fn capture_spec(&self) -> CaptureContext {
        self.capture
    }

    /// The message from the last failed save, if it still stands.
    pub closed spec fn error_spec(&self) -> Option<String> {
        self.last_error
    }

    /// The session's well-formedness: its state and last error keep the
    /// invariant [`session_ok`].
    pub open spec fn wf(&self) -> bool {
        session_ok(self.state_spec(), self.error_spec())
    }

    /// Starts an idle session that will stamp every take with `capture`.
    pub fn new(capture: CaptureContext) -> (r: DrillSession<T>)
        ensures
            r.state_spec() == SessionState::<T>::Idle,
            r.capture_spec() == capture,
            r.error_spec() is None,
            r.wf(),
    {
        DrillSession { state: SessionState::Idle, capture, last_error: None }
    }

    /// The current state.
    pub fn state(&self) -> (r: &SessionState<T>)
        ensures
            *r == self.state_spec(),
    {
        &self.state
    }

    /// The target's note number, once a drill has started and until it is
    /// saved.
    pub fn target_note(&self) -> (r: Option<i32>)
        ensures
            r == (match target_of(self.state_spec()) {
                Some(t) => Some(t.3),
                None => None,
            }),
    {
        match &self.state {
            SessionState::PlayingReference { target_note, .. } => Some(*target_note),
            SessionState::Listening { target_note, .. } => Some(*target_note),
            SessionState::Review { target_note, .. } => Some(*target_note),
            SessionState::Saving { target_note, .. } => Some(*target_note),
            _ => None,
        }
    }

    /// The recorded track, once there is one; empty otherwise.
    pub fn track(&self) -> (r: &[T])
        ensures
            r@ == (match self.state_spec() {
                SessionState::Review { track, .. } => track@,
                SessionState::Saving { track, .. } => track@,
                _ => Seq::<T>::empty(),
            }),
    {
        match &self.state {
            SessionState::Review { track, .. } => track.as_slice(),
            SessionState::Saving { track, .. } => track.as_slice(),
            _ => &[],
        }
    }

    /// Whether [`Event::Save`] would be accepted right now.
    pub fn can_save(&self) -> (r: bool)
        ensures
            r == (self.state_spec() matches SessionState::Review { self_rating: Some(_), .. }),
            r == accepts(self.state_spec(), Event::<T>::Save),
    {
        match &self.state {
            SessionState::Review { self_rating: Some(_), .. } => true,
            _ => false,
        }
    }

    /// The message from the last failed save, cleared as soon as anything
    /// else succeeds.
    pub fn last_error(&self) -> (r: Option<&str>)
        ensures
            match self.error_spec() {
                Some(m) => r is Some && r.unwrap()@ == m@,
                None => r is None,
            },
    {
        match &self.last_error {
            Some(m) => Some(m.as_str()),
            None => None,
        }
    }

    /// Feeds one event through the machine and returns what the adapter
    /// should do about it. Events that make no sense in the current state,
    /// and rejected ones, return no commands and leave the state untouched.
    pub fn handle(&mut self, event: Event<T>) -> (r: Vec<Command>)
        requires
            old(self).wf(),
            event_fits(old(self).state_spec(), event),
        ensures
            final(self).wf(),
            final(self).state_spec() == next_state(old(self).state_spec(), event),
            final(self).error_spec() == next_error(
                old(self).state_spec(),
                event,
                old(self).error_spec(),
            ),
            final(self).capture_spec() == old(self).capture_spec(),
            emits(old(self).state_spec(), event, old(self).capture_spec(), r@),
    {
        let mut state = SessionState::Idle;
        std::mem::swap(&mut state, &mut self.state);
        let (next, commands) = self.transition(state, event);
        self.state = next;
        commands
    }

    /// A new drill: the reference plays, the target is fixed, the last
    /// error is cleared.
    fn start(&mut self, key: Key, degree: Degree, tonic_octave: i32) -> (r: (SessionState<T>, Vec<Command>))
        requires
            degree_fits(key, degree, tonic_octave as int),
            arpeggio_fits(key, tonic_octave as int),
        ensures
            r.0 == (SessionState::<T>::PlayingReference {
                key,
                degree,
                tonic_octave,
                target_note: degree_note(key, degree, tonic_octave as int) as i32,
            }),
            r.1@.len() == 1,
            r.1@[0] matches Command::PlayArpeggio(notes) && notes@ == arpeggio_notes(key, tonic_octave as int),
            final(self).error_spec() is None,
            final(self).capture_spec() == old(self).capture_spec(),
            final(self).state_spec() == old(self).state_spec(),
    {
        self.last_error = None;
        let target_note = degree_note_number(key, degree, tonic_octave);
        let notes = arpeggio_note_numbers(key, tonic_octave);
        proof {
            assert(notes@ =~= arpeggio_notes(key, tonic_octave as int));
        }
        (SessionState::PlayingReference { key, degree, tonic_octave, target_note }, vec![Command::PlayArpeggio(notes)])
    }

    fn transition(&mut self, state: SessionState<T>, event: Event<T>) -> (r: (SessionState<T>, Vec<Command>))
        requires
            session_ok(state, old(self).error_spec()),
            event_fits(state, event),
        ensures
            session_ok(r.0, final(self).error_spec()),
            r.0 == next_state(state, event),
            final(self).error_spec() == next_error(state, event, old(self).error_spec()),
            final(self).capture_spec() == old(self).capture_spec(),
            final(self).state_spec() == old(self).state_spec(),
            emits(state, event, old(self).capture_spec(), r.1@),
    {
        match state {
            SessionState::Idle => match event {
                Event::Start { key, degree, tonic_octave } => self.start(key, degree, tonic_octave),
                Event::Reset => {
                    self.last_error = None;
                    (SessionState::Idle, Vec::new())
                },
                _ => (SessionState::Idle, Vec::new()),
            },
            SessionState::PlayingReference { key, degree, tonic_octave, target_note } => match event {
                Event::ReferenceDone => (
                    SessionState::Listening { key, degree, tonic_octave, target_note, stopping: false },
                    vec![Command::StartCapture],
                ),
                Event::Stop => (SessionState::Idle, Vec::new()),
                Event::Reset => {
                    self.last_error = None;
                    (SessionState::Idle, Vec::new())
                },
                _ => (
                    SessionState::PlayingReference { key, degree, tonic_octave, target_note },
                    Vec::new(),
                ),
            },
            SessionState::Listening { key, degree, tonic_octave, target_note, stopping } => match event {
                Event::Stop => {
                    // Auto-stop and the spacebar can both fire; one is enough.
                    let commands = if stopping {
                        Vec::new()
                    } else {
                        vec![Command::StopCapture]
                    };
                    (
                        SessionState::Listening { key, degree, tonic_octave, target_note, stopping: true },
                        commands,
                    )
                },
                Event::TrackReady(track) => (
                    SessionState::Review {
                        key,
                        degree,
                        tonic_octave,
                        target_note,
                        track,
                        self_rating: None,
                        note: None,
                    },
                    Vec::new(),
                ),
                Event::Reset => {
                    // The mic is still open: tear it down rather than leave
                    // the adapter to notice.
                    self.last_error = None;
                    let commands = if stopping {
                        Vec::new()
                    } else {
                        vec![Command::StopCapture]
                    };
                    (SessionState::Idle, commands)
                },
                _ => (
                    SessionState::Listening { key, degree, tonic_octave, target_note, stopping },
                    Vec::new(),
                ),
            },
            SessionState::Review { key, degree, tonic_octave, target_note, track, self_rating, note } => {
                match event {
                    Event::Rate(rating) => {
                        // Out-of-range ratings are dropped, keeping any
                        // rating already given.
                        let self_rating = if 1 <= rating && rating <= 5 {
                            Some(rating)
                        } else {
                            self_rating
                        };
                        (
                            SessionState::Review {
                                key,
                                degree,
                                tonic_octave,
                                target_note,
                                track,
                                self_rating,
                                note,
                            },
                            Vec::new(),
                        )
                    },
                    Event::NoteEdited(text) => {
                        let note = if text.as_str().is_empty() {
                            None
                        } else {
                            Some(text)
                        };
                        (
                            SessionState::Review {
                                key,
                                degree,
                                tonic_octave,
                                target_note,
                                track,
                                self_rating,
                                note,
                            },
                            Vec::new(),
                        )
                    },
                    Event::HearTarget => (
                        SessionState::Review {
                            key,
                            degree,
                            tonic_octave,
                            target_note,
                            track,
                            self_rating,
                            note,
                        },
                        vec![Command::PlayTone(target_note)],
                    ),
                    Event::Save => match self_rating {
                        Some(rating) => {
                            self.last_error = None;
                            let note_copy = match &note {
                                Some(n) => Some(n.clone()),
                                None => None,
                            };
                            let meta = self.capture.new_sample_meta(
                                DrillMeta::degree(key, degree, target_note),
                                Some(rating),
                                note_copy,
                            );
                            (
                                SessionState::Saving {
                                    key,
                                    degree,
                                    tonic_octave,
                                    target_note,
                                    track,
                                    self_rating: rating,
                                    note,
                                },
                                vec![Command::Persist(meta)],
                            )
                        },
                        None => (
                            SessionState::Review {
                                key,
                                degree,
                                tonic_octave,
                                target_note,
                                track,
                                self_rating,
                                note,
                            },
                            Vec::new(),
                        ),
                    },
                    Event::Reset => {
                        self.last_error = None;
                        (SessionState::Idle, Vec::new())
                    },
                    _ => (
                        SessionState::Review {
                            key,
                            degree,
                            tonic_octave,
                            target_note,
                            track,
                            self_rating,
                            note,
                        },
                        Vec::new(),
                    ),
                }
            },
            SessionState::Saving { key, degree, tonic_octave, target_note, track, self_rating, note } => {
                match event {
                    Event::SaveOk { id } => {
                        self.last_error = None;
                        (SessionState::Saved { id }, Vec::new())
                    },
                    Event::SaveErr(message) => {
                        // A failed upload must not cost the user their take
                        // or their tags.
                        self.last_error = Some(message);
                        (
                            SessionState::Review {
                                key,
                                degree,
                                tonic_octave,
                                target_note,
                                track,
                                self_rating: Some(self_rating),
                                note,
                            },
                            Vec::new(),
                        )
                    },
                    Event::Reset => {
                        self.last_error = None;
                        (SessionState::Idle, Vec::new())
                    },
                    _ => (
                        SessionState::Saving {
                            key,
                            degree,
                            tonic_octave,
                            target_note,
                            track,
                            self_rating,
                            note,
                        },
                        Vec::new(),
                    ),
                }
            },
            SessionState::Saved { id } => match event {
                Event::Start { key, degree, tonic_octave } => self.start(key, degree, tonic_octave),
                Event::Reset => {
                    self.last_error = None;
                    (SessionState::Idle, Vec::new())
                },
                _ => (SessionState::Saved { id }, Vec::new()),
            },
        }
    }
}

} // verus!
