//! The browser client's side of an upload: the metadata it sends with a
//! free take, and the bytes it puts on the wire for the recorded PCM.
use vstd::prelude::*;
use vstd::string::*;

use crate::meta::{AudioMeta, CaptureMeta, DrillMeta, NewSampleMeta, DRILL_TYPE_FREE};
use crate::server::le_word;
use crate::ui::{compose_note, non_empty, note_text, trimmed};

verus! {

/// The tag form's contents plus the two capture facts, ready to send.
pub struct SaveRequest {
    pub drill_type: String,
    pub self_rating: Option<u8>,
    pub note: Option<String>,
    pub sample_rate: u32,
    pub device_label: String,
}

/// What the server answers a successful save with.
#[derive(Debug, Clone, PartialEq)]
pub struct SavedSample {
    pub id: String,
    pub path: String,
}

impl SaveRequest {
    /// `r` is the request the tag form sends: the trimmed drill type, or
    /// `free` when none was typed; the rating as picked; the target and the
    /// note folded into one note; the take's rate and device.
    pub open spec fn is_from_form(
        r: SaveRequest,
        drill_type: Seq<char>,
        target: Seq<char>,
        note: Seq<char>,
        rating: Option<u8>,
        sample_rate: u32,
        device_label: Seq<char>,
    ) -> bool {
        &&& r.drill_type@ == (if trimmed(drill_type).len() == 0 {
            DRILL_TYPE_FREE@
        } else {
            trimmed(drill_type)
        })
        &&& r.self_rating == rating
        &&& match r.note {
            Some(n) => note_text(trimmed(target), trimmed(note)) == Some(n@),
            None => note_text(trimmed(target), trimmed(note)) is None,
        }
        &&& r.sample_rate == sample_rate
        &&& r.device_label@ == device_label
    }

    /// The request for a take tagged through the form.
    pub fn from_form(
        drill_type: &str,
        target: &str,
        note: &str,
        rating: Option<u8>,
        sample_rate: u32,
        device_label: String,
    ) -> (r: SaveRequest)
        ensures
            SaveRequest::is_from_form(
                r,
                drill_type@,
                target@,
                note@,
                rating,
                sample_rate,
                device_label@,
            ),
    {
        let drill_type = match non_empty(drill_type) {
            Some(t) => t,
            None => String::from_str(DRILL_TYPE_FREE),
        };
        SaveRequest {
            drill_type,
            self_rating: rating,
            note: compose_note(target, note),
            sample_rate,
            device_label,
        }
    }

    /// The upload metadata for this request, stamped with the browser's user
    /// agent and the client's build. The drill part carries the type alone:
    /// key, mode, degree and target stay absent.
    pub fn into_meta(self, user_agent: String, app_git_sha: String) -> (r: NewSampleMeta)
        ensures
            r.drill.drill_type == self.drill_type,
            r.drill.key is None,
            r.drill.mode is None,
            r.drill.degree is None,
            r.drill.target_note is None,
            r.self_rating == self.self_rating,
            r.note == self.note,
            r.audio.sample_rate == self.sample_rate,
            r.capture.device_label == self.device_label,
            r.capture.user_agent == user_agent,
            r.capture.app_git_sha == app_git_sha,
    {
        NewSampleMeta {
            drill: DrillMeta {
                drill_type: self.drill_type,
                key: None,
                mode: None,
                degree: None,
                target_note: None,
            },
            self_rating: self.self_rating,
            note: self.note,
            audio: AudioMeta { sample_rate: self.sample_rate },
            capture: CaptureMeta {
                device_label: self.device_label,
                user_agent,
                app_git_sha,
            },
        }
    }
}

/// Byte `k` (0 = least significant) of the 32-bit word `w`.
pub open spec fn byte_of(w: u32, k: int) -> u8 {
    (if k == 0 {
        w % 256
    } else if k == 1 {
        (w / 256) % 256
    } else if k == 2 {
        (w / 65536) % 256
    } else {
        w / 16777216
    }) as u8
}

/// The little-endian bytes of `words`, four per word, in order.
pub open spec fn le_bytes(words: Seq<u32>) -> Seq<u8> {
    Seq::new(4 * words.len(), |j: int| byte_of(words[j / 4], j % 4))
}

proof fn lemma_word_bytes(w: u32)
    ensures
        byte_of(w, 0) + 256 * byte_of(w, 1) + 65536 * byte_of(w, 2) + 16777216 * byte_of(w, 3)
            == w,
{
    assert((w % 256) + 256 * ((w / 256) % 256) + 65536 * ((w / 65536) % 256) + 16777216 * (w
        / 16777216) == w) by (bit_vector);
}

/// What the client puts on the wire is what the server reads back: the
/// little-endian bytes of any words are a whole number of 32-bit samples,
/// one per word, and sample `i` of them is word `i`.
pub proof fn lemma_pcm_round_trip(words: Seq<u32>)
    ensures
        le_bytes(words).len() % 4 == 0,
        le_bytes(words).len() / 4 == words.len(),
        forall|i: int| 0 <= i < words.len() ==> #[trigger] le_word(le_bytes(words), i) == words[i],
{
    let b = le_bytes(words);
    assert forall|i: int| 0 <= i < words.len() implies #[trigger] le_word(b, i) == words[i] by {
        assert((4 * i) / 4 == i && (4 * i) % 4 == 0);
        assert((4 * i + 1) / 4 == i && (4 * i + 1) % 4 == 1);
        assert((4 * i + 2) / 4 == i && (4 * i + 2) % 4 == 2);
        assert((4 * i + 3) / 4 == i && (4 * i + 3) % 4 == 3);
        lemma_word_bytes(words[i]);
    }
}

/// The PCM part as the client sends it: each sample's 32-bit pattern as
/// four little-endian bytes.
pub fn pcm_bytes(words: &[u32]) -> (r: Vec<u8>)
    requires
        4 * words@.len() <= usize::MAX,
    ensures
        r@ == le_bytes(words@),
{
    let mut bytes: Vec<u8> = Vec::new();
    let mut i: usize = 0;
    while i < words.len()
        invariant
            0 <= i <= words@.len(),
            4 * words@.len() <= usize::MAX,
            bytes@.len() == 4 * i,
            forall|j: int| 0 <= j < 4 * i ==> #[trigger] bytes@[j] == byte_of(words@[j / 4], j % 4),
        decreases words@.len() - i,
    {
        let w = words[i];
        bytes.push((w % 256) as u8);
        bytes.push(((w / 256) % 256) as u8);
        bytes.push(((w / 65536) % 256) as u8);
        bytes.push((w / 16777216) as u8);
        assert forall|j: int| 0 <= j < 4 * (i + 1) implies #[trigger] bytes@[j] == byte_of(
            words@[j / 4],
            j % 4,
        ) by {
            if j >= 4 * i {
                assert(j / 4 == i as int);
            }
        }
        i = i + 1;
    }
    assert(bytes@ =~= le_bytes(words@));
    bytes
}

} // verus!
