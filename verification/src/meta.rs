//! The metadata half of a sample upload: everything about a take the client
//! knows and the server does not. The server owns the id, the timestamp, the
//! schema version and every fact derived from the audio it writes; none of
//! those appear here.
use vstd::prelude::*;
use vstd::string::*;

use crate::theory::{Degree, Key, Mode, PitchClass};

verus! {

/// `drill.type` for the scale-degree drill.
pub const DRILL_TYPE_DEGREE: &'static str = "degree";

/// `drill.type` for an untargeted take (recorded outside a drill).
pub const DRILL_TYPE_FREE: &'static str = "free";

/// What was being drilled. The drill type is free-form ("degree" and "free");
/// the other fields describe a degree drill and are absent for takes that had
/// no target. The target is named by its absolute note number, whose
/// equal-temperament frequency is the target pitch.
#[derive(Debug, Clone, PartialEq)]
pub struct DrillMeta {
    pub drill_type: String,
    pub key: Option<PitchClass>,
    pub mode: Option<Mode>,
    pub degree: Option<Degree>,
    pub target_note: Option<i32>,
}

/// How to interpret the PCM posted with this metadata: the device's actual
/// capture rate, never an assumed one.
#[derive(Debug, Clone, PartialEq)]
pub struct AudioMeta {
    pub sample_rate: u32,
}

/// Best-effort provenance for the capture.
#[derive(Debug, Clone, PartialEq)]
pub struct CaptureMeta {
    pub device_label: String,
    pub user_agent: String,
    pub app_git_sha: String,
}

/// The upload metadata for one take.
#[derive(Debug, Clone, PartialEq)]
pub struct NewSampleMeta {
    pub drill: DrillMeta,
    pub self_rating: Option<u8>,
    pub note: Option<String>,
    pub audio: AudioMeta,
    pub capture: CaptureMeta,
}

/// The facts about this machine and this session that the adapter knows and
/// the state machine does not; stamped onto every take.
#[derive(Debug, Clone, PartialEq)]
pub struct CaptureContext {
    pub sample_rate: u32,
    pub device_label: String,
    pub user_agent: String,
    pub app_git_sha: String,
}

impl DrillMeta {
    /// `m` describes a degree drill on `degree` of `key` aiming at `target_note`.
    pub open spec fn is_degree_drill(m: DrillMeta, key: Key, degree: Degree, target_note: i32) -> bool {
        &&& m.drill_type@ == DRILL_TYPE_DEGREE@
        &&& m.key == Some(key.tonic)
        &&& m.mode == Some(key.mode)
        &&& m.degree == Some(degree)
        &&& m.target_note == Some(target_note)
    }

    /// `m` describes a take with no target.
    pub open spec fn is_free(m: DrillMeta) -> bool {
        &&& m.drill_type@ == DRILL_TYPE_FREE@
        &&& m.key is None
        &&& m.mode is None
        &&& m.degree is None
        &&& m.target_note is None
    }

    /// Metadata for a degree-drill take.
    pub fn degree(key: Key, degree: Degree, target_note: i32) -> (r: DrillMeta)
        ensures
            DrillMeta::is_degree_drill(r, key, degree, target_note),
    {
        DrillMeta {
            drill_type: String::from_str(DRILL_TYPE_DEGREE),
            key: Some(key.tonic),
            mode: Some(key.mode),
            degree: Some(degree),
            target_note: Some(target_note),
        }
    }

    /// Metadata for a take with no target.
    pub fn free() -> (r: DrillMeta)
        ensures
            DrillMeta::is_free(r),
    {
        DrillMeta {
            drill_type: String::from_str(DRILL_TYPE_FREE),
            key: None,
            mode: None,
            degree: None,
            target_note: None,
        }
    }
}

impl CaptureContext {
    /// The audio part of an upload made in this context.
    pub fn audio(&self) -> (r: AudioMeta)
        ensures
            r.sample_rate == self.sample_rate,
    {
        AudioMeta { sample_rate: self.sample_rate }
    }

    /// The provenance part of an upload made in this context.
    pub fn capture(&self) -> (r: CaptureMeta)
        ensures
            r.device_label == self.device_label,
            r.user_agent == self.user_agent,
            r.app_git_sha == self.app_git_sha,
    {
        CaptureMeta {
            device_label: self.device_label.clone(),
            user_agent: self.user_agent.clone(),
            app_git_sha: self.app_git_sha.clone(),
        }
    }

    /// `m` is the upload metadata this context stamps onto a take tagged
    /// with `drill`, `self_rating` and `note`.
    pub open spec fn stamps(self, m: NewSampleMeta, drill: DrillMeta, self_rating: Option<u8>, note: Option<String>) -> bool {
        &&& m.drill == drill
        &&& m.self_rating == self_rating
        &&& m.note == note
        &&& m.audio.sample_rate == self.sample_rate
        &&& m.capture.device_label == self.device_label
        &&& m.capture.user_agent == self.user_agent
        &&& m.capture.app_git_sha == self.app_git_sha
    }

    /// Builds the upload metadata for a finished take.
    pub fn new_sample_meta(&self, drill: DrillMeta, self_rating: Option<u8>, note: Option<String>) -> (r: NewSampleMeta)
        ensures
            self.stamps(r, drill, self_rating, note),
    {
        NewSampleMeta { drill, self_rating, note, audio: self.audio(), capture: self.capture() }
    }
}

} // verus!
