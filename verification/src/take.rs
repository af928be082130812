//! The free-take screen's control loop: record, tag, save. Each gesture and
//! each finished piece of outside work (the mic opening, the mic closing,
//! the upload returning) is one step here; the screen performs what a step
//! asks for and reports back.
use vstd::prelude::*;
use vstd::string::*;

use crate::client::{SaveRequest, SavedSample};
use crate::meta::DRILL_TYPE_FREE;
use crate::ui::{non_empty, trimmed};

verus! {

/// Where the screen is in the record, tag, save loop.
#[derive(Debug, Clone, Copy, PartialEq, Eq, Structural)]
pub enum Phase {
    Idle,
    Recording,
    /// A take is captured and the tag form is up.
    Tagging,
    /// The upload is in flight.
    Saving,
}

/// What the last finished save attempt did, for the result banner.
#[derive(Debug, Clone, PartialEq)]
pub enum Outcome {
    Saved(SavedSample),
    Failed(String),
}

/// A captured take: its samples at the device's actual rate, and the device.
#[derive(Debug, Clone)]
pub struct Recording<T> {
    pub samples: Vec<T>,
    pub sample_rate: u32,
    pub device_label: String,
}

/// The device name shown when the browser hands back a blank track label.
pub const UNKNOWN_DEVICE: &'static str = "unknown input device";

/// The device label a take records: the browser's track label as given, or
/// [`UNKNOWN_DEVICE`] when that label is empty or only white space.
pub fn device_label(label: String) -> (r: String)
    ensures
        r@ == (if trimmed(label@).len() == 0 {
            UNKNOWN_DEVICE@
        } else {
            label@
        }),
{
    match non_empty(label.as_str()) {
        None => String::from_str(UNKNOWN_DEVICE),
        Some(_) => label,
    }
}

/// The tag form's fields as typed.
#[derive(Debug, Clone)]
pub struct TagForm {
    pub drill_type: String,
    pub target: String,
    pub note: String,
    pub rating: Option<u8>,
}

/// What a step asks the screen to do next.
pub enum Step {
    /// Open the mic and report whether it opened.
    OpenMic,
    /// Close the mic and report the take.
    CloseMic,
    /// Upload the captured take's samples with this request and report the
    /// server's answer.
    Post(SaveRequest),
    Nothing,
}

/// The whole screen state the loop decides on. `mic_open` says the capture
/// graph is live.
pub struct TakeScreen<T> {
    pub phase: Phase,
    pub mic_open: bool,
    pub captured: Option<Recording<T>>,
    pub outcome: Option<Outcome>,
    pub form: TagForm,
}

/// The note the development test tone is tagged with.
pub const TEST_TONE_NOTE: &'static str = "dev test tone";

impl TagForm {
    /// The form as it starts and as every finished or discarded take leaves
    /// it: drill type `free`, nothing else filled in.
    pub open spec fn is_blank(self) -> bool {
        &&& self.drill_type@ == DRILL_TYPE_FREE@
        &&& self.target@.len() == 0
        &&& self.note@.len() == 0
        &&& self.rating is None
    }

    /// A blank form.
    pub fn blank() -> (r: TagForm)
        ensures
            r.is_blank(),
    {
        proof {
            reveal_strlit("");
        }
        TagForm {
            drill_type: String::from_str(DRILL_TYPE_FREE),
            target: String::new(),
            note: String::new(),
            rating: None,
        }
    }
}

/// A rating button pressed while `current` is chosen: pressing the chosen
/// score clears it, any other score becomes the choice.
pub fn toggle_rating(current: Option<u8>, score: u8) -> (r: Option<u8>)
    ensures
        r == (if current == Some(score) {
            None
        } else {
            Some(score)
        }),
{
    if current == Some(score) {
        None
    } else {
        Some(score)
    }
}

/// Whether a key press starts or stops recording: Space or R (either case),
/// not held down, with no modifier, and never while a take is being tagged
/// or saved, so those keys type normally in the form.
pub fn toggles_recording(phase: Phase, key: &str, repeat: bool, modifier: bool) -> (r: bool)
    ensures
        r == (!repeat && !modifier && (phase == Phase::Idle || phase == Phase::Recording) && (key@
            == seq![' '] || key@ == seq!['r'] || key@ == seq!['R'])),
{
    if repeat || modifier {
        return false;
    }
    match phase {
        Phase::Tagging | Phase::Saving => false,
        _ => {
            if key.unicode_len() != 1 {
                return false;
            }
            let c = key.get_char(0);
            proof {
                assert(key@ =~= seq![c]);
            }
            c == ' ' || c == 'r' || c == 'R'
        },
    }
}

/// The result banner's style and text for the last outcome.
pub fn banner(outcome: &Option<Outcome>) -> (r: (&'static str, String))
    ensures
        match outcome {
            Some(Outcome::Saved(s)) => r.0@ == "banner banner-ok"@ && r.1@ == "Saved "@ + s.id@
                + " → "@ + s.path@,
            Some(Outcome::Failed(e)) => r.0@ == "banner banner-error"@ && r.1@ == e@,
            None => r.0@ == "banner"@ && r.1@.len() == 0,
        },
{
    match outcome {
        Some(Outcome::Saved(s)) => {
            let mut t = String::from_str("Saved ");
            t.append(s.id.as_str());
            t.append(" → ");
            t.append(s.path.as_str());
            ("banner banner-ok", t)
        },
        Some(Outcome::Failed(e)) => ("banner banner-error", e.clone()),
        None => {
            proof {
                reveal_strlit("");
            }
            ("banner", String::new())
        },
    }
}

impl<T> TakeScreen<T> {
    /// The screen on load: idle, mic closed, no take, no banner, blank form.
    pub fn new() -> (r: Self)
        ensures
            r.phase == Phase::Idle,
            !r.mic_open,
            r.captured is None,
            r.outcome is None,
            r.form.is_blank(),
    {
        TakeScreen { phase: Phase::Idle, mic_open: false, captured: None, outcome: None, form: TagForm::blank() }
    }

    /// Record or Stop. With the mic closed this clears the last take and the
    /// banner and asks for the mic; with it open it asks to close it.
    pub fn toggle(&mut self) -> (step: Step)
        ensures
            !old(self).mic_open ==> {
                &&& step is OpenMic
                &&& final(self).phase == old(self).phase
                &&& !final(self).mic_open
                &&& final(self).captured is None
                &&& final(self).outcome is None
                &&& final(self).form == old(self).form
            },
            old(self).mic_open ==> step is CloseMic && *final(self) == *old(self),
    {
        if self.mic_open {
            Step::CloseMic
        } else {
            self.captured = None;
            self.outcome = None;
            Step::OpenMic
        }
    }

    /// The mic opened, or could not: recording starts, or the screen goes
    /// back to idle with the reason in the banner.
    pub fn mic_opened(&mut self, result: Result<(), String>)
        ensures
            final(self).captured == old(self).captured,
            final(self).form == old(self).form,
            match result {
                Ok(()) => {
                    &&& final(self).mic_open
                    &&& final(self).phase == Phase::Recording
                    &&& final(self).outcome == old(self).outcome
                },
                Err(e) => {
                    &&& final(self).mic_open == old(self).mic_open
                    &&& final(self).phase == Phase::Idle
                    &&& final(self).outcome == Some(Outcome::Failed(e))
                },
            },
    {
        match result {
            Ok(()) => {
                self.mic_open = true;
                self.phase = Phase::Recording;
            },
            Err(e) => {
                self.outcome = Some(Outcome::Failed(e));
                self.phase = Phase::Idle;
            },
        }
    }

    /// The mic closed and handed over the take: the tag form comes up.
    pub fn mic_closed(&mut self, take: Recording<T>)
        ensures
            !final(self).mic_open,
            final(self).phase == Phase::Tagging,
            final(self).captured == Some(take),
            final(self).outcome == old(self).outcome,
            final(self).form == old(self).form,
    {
        self.mic_open = false;
        self.captured = Some(take);
        self.phase = Phase::Tagging;
    }

    /// Saving the captured take, when there is one: the request built from
    /// the form and the take; without a take nothing happens.
    fn start_save(&mut self) -> (step: Step)
        ensures
            old(self).captured is None ==> step is Nothing && *final(self) == *old(self),
            old(self).captured matches Some(take) ==> {
                &&& final(self).phase == Phase::Saving
                &&& final(self).mic_open == old(self).mic_open
                &&& final(self).captured == old(self).captured
                &&& final(self).outcome == old(self).outcome
                &&& final(self).form == old(self).form
                &&& step matches Step::Post(req) && SaveRequest::is_from_form(
                    req,
                    old(self).form.drill_type@,
                    old(self).form.target@,
                    old(self).form.note@,
                    old(self).form.rating,
                    take.sample_rate,
                    take.device_label@,
                )
            },
    {
        match &self.captured {
            None => Step::Nothing,
            Some(take) => {
                let req = SaveRequest::from_form(
                    self.form.drill_type.as_str(),
                    self.form.target.as_str(),
                    self.form.note.as_str(),
                    self.form.rating,
                    take.sample_rate,
                    take.device_label.clone(),
                );
                self.phase = Phase::Saving;
                Step::Post(req)
            },
        }
    }

    /// Save pressed: uploads the captured take as tagged; with no take
    /// captured nothing happens.
    pub fn save(&mut self) -> (step: Step)
        ensures
            old(self).captured is None ==> step is Nothing && *final(self) == *old(self),
            old(self).captured matches Some(take) ==> {
                &&& final(self).phase == Phase::Saving
                &&& final(self).mic_open == old(self).mic_open
                &&& final(self).captured == old(self).captured
                &&& final(self).outcome == old(self).outcome
                &&& final(self).form == old(self).form
                &&& step matches Step::Post(req) && SaveRequest::is_from_form(
                    req,
                    old(self).form.drill_type@,
                    old(self).form.target@,
                    old(self).form.note@,
                    old(self).form.rating,
                    take.sample_rate,
                    take.device_label@,
                )
            },
    {
        self.start_save()
    }

    /// Discard: the take, the banner and the form are cleared and the
    /// screen is idle again.
    pub fn discard(&mut self)
        ensures
            final(self).phase == Phase::Idle,
            final(self).mic_open == old(self).mic_open,
            final(self).captured is None,
            final(self).outcome is None,
            final(self).form.is_blank(),
    {
        self.captured = None;
        self.outcome = None;
        self.form = TagForm::blank();
        self.phase = Phase::Idle;
    }

    /// The development test tone goes through the same save path as a real
    /// take: it becomes the captured take, the form is filled for a free
    /// take noted as the test tone, and the upload starts.
    pub fn test_tone(&mut self, take: Recording<T>) -> (step: Step)
        ensures
            final(self).phase == Phase::Saving,
            final(self).mic_open == old(self).mic_open,
            final(self).captured == Some(take),
            final(self).outcome == old(self).outcome,
            final(self).form.drill_type@ == DRILL_TYPE_FREE@,
            final(self).form.target@.len() == 0,
            final(self).form.note@ == TEST_TONE_NOTE@,
            final(self).form.rating is None,
            step matches Step::Post(req) && SaveRequest::is_from_form(
                req,
                DRILL_TYPE_FREE@,
                seq![],
                TEST_TONE_NOTE@,
                None,
                take.sample_rate,
                take.device_label@,
            ),
    {
        proof {
            reveal_strlit("");
        }
        self.captured = Some(take);
        self.form = TagForm {
            drill_type: String::from_str(DRILL_TYPE_FREE),
            target: String::new(),
            note: String::from_str(TEST_TONE_NOTE),
            rating: None,
        };
        self.start_save()
    }

    /// The upload answered. Saved: the banner says where, the take and the
    /// form are cleared, the screen is idle. Failed: the banner says why and
    /// the take and the form stay, back on the tag form, to try again.
    pub fn save_finished(&mut self, result: Result<SavedSample, String>)
        ensures
            final(self).mic_open == old(self).mic_open,
            match result {
                Ok(saved) => {
                    &&& final(self).phase == Phase::Idle
                    &&& final(self).captured is None
                    &&& final(self).outcome == Some(Outcome::Saved(saved))
                    &&& final(self).form.is_blank()
                },
                Err(e) => {
                    &&& final(self).phase == Phase::Tagging
                    &&& final(self).captured == old(self).captured
                    &&& final(self).outcome == Some(Outcome::Failed(e))
                    &&& final(self).form == old(self).form
                },
            },
    {
        match result {
            Ok(saved) => {
                self.outcome = Some(Outcome::Saved(saved));
                self.captured = None;
                self.form = TagForm::blank();
                self.phase = Phase::Idle;
            },
            Err(e) => {
                self.outcome = Some(Outcome::Failed(e));
                self.phase = Phase::Tagging;
            },
        }
    }
}

} // verus!
