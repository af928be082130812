//! What the screens say and how keys and form fields turn into data: the
//! decisions of the web front end, without the browser.
use vstd::prelude::*;
use vstd::string::*;

use crate::archive::is_white_space;
use crate::session::{accepts, Event, SessionState};
use crate::text::{decimal, push_decimal};
use crate::theory::{Degree, Key, Mode, PitchClass};

verus! {

/// `s` without its leading white space.
pub open spec fn trim_start(s: Seq<char>) -> Seq<char>
    decreases s.len(),
{
    if s.len() > 0 && is_white_space(s[0]) {
        trim_start(s.drop_first())
    } else {
        s
    }
}

/// `s` without its trailing white space.
pub open spec fn trim_end(s: Seq<char>) -> Seq<char>
    decreases s.len(),
{
    if s.len() > 0 && is_white_space(s.last()) {
        trim_end(s.drop_last())
    } else {
        s
    }
}

/// `s` without leading and trailing white space, as `str::trim` gives it.
pub open spec fn trimmed(s: Seq<char>) -> Seq<char> {
    trim_end(trim_start(s))
}

/// Whether `c` is white space (`char::is_whitespace`).
fn white(c: char) -> (r: bool)
    ensures
        r == is_white_space(c),
{
    let u = c as u32;
    (0x9 <= u && u <= 0xD) || u == 0x20 || u == 0x85 || u == 0xA0 || u == 0x1680 || (0x2000 <= u
        && u <= 0x200A) || u == 0x2028 || u == 0x2029 || u == 0x202F || u == 0x205F || u == 0x3000
}

/// Dropping leading white space from a subrange that starts on white space.
proof fn lemma_trim_start_step(s: Seq<char>, i: int)
    requires
        0 <= i < s.len(),
        is_white_space(s[i]),
    ensures
        trim_start(s.subrange(i, s.len() as int)) == trim_start(s.subrange(i + 1, s.len() as int)),
{
    assert(s.subrange(i, s.len() as int).drop_first() =~= s.subrange(i + 1, s.len() as int));
}

/// Dropping trailing white space from a prefix that ends on white space.
proof fn lemma_trim_end_step(s: Seq<char>, j: int)
    requires
        0 < j <= s.len(),
        is_white_space(s[j - 1]),
    ensures
        trim_end(s.subrange(0, j)) == trim_end(s.subrange(0, j - 1)),
{
    assert(s.subrange(0, j).drop_last() =~= s.subrange(0, j - 1));
}

/// The trimmed text, or `None` when nothing but white space was typed.
pub fn non_empty(text: &str) -> (r: Option<String>)
    ensures
        match r {
            Some(t) => t@ == trimmed(text@) && t@.len() > 0,
            None => trimmed(text@).len() == 0,
        },
{
    let n = text.unicode_len();
    let mut i: usize = 0;
    assert(text@.subrange(0, n as int) =~= text@);
    while i < n && white(text.get_char(i))
        invariant
            n == text@.len(),
            0 <= i <= n,
            trim_start(text@) == trim_start(text@.subrange(i as int, n as int)),
        decreases n - i,
    {
        proof {
            lemma_trim_start_step(text@, i as int);
        }
        i = i + 1;
    }
    let ghost front = text@.subrange(i as int, n as int);
    proof {
        assert(trim_start(front) == front);
    }
    let mut j: usize = n;
    while j > i && white(text.get_char(j - 1))
        invariant
            n == text@.len(),
            0 <= i <= j <= n,
            front == text@.subrange(i as int, n as int),
            trim_end(front) == trim_end(text@.subrange(i as int, j as int)),
        decreases j - i,
    {
        proof {
            let t = text@.subrange(i as int, j as int);
            assert(t.drop_last() =~= text@.subrange(i as int, j - 1));
            assert(t.last() == text@[j - 1]);
        }
        j = j - 1;
    }
    proof {
        let t = text@.subrange(i as int, j as int);
        if j > i {
            assert(t.last() == text@[j - 1]);
        }
        assert(trim_end(t) == t);
    }
    if i == j {
        None
    } else {
        let t = text.substring_char(i, j);
        Some(String::from_str(t))
    }
}

/// `target: <target>`, `target: <target> — <note>`, or the note alone.
pub open spec fn note_text(target: Seq<char>, note: Seq<char>) -> Option<Seq<char>> {
    if target.len() == 0 && note.len() == 0 {
        None
    } else if target.len() == 0 {
        Some(note)
    } else if note.len() == 0 {
        Some("target: "@ + target)
    } else {
        Some("target: "@ + target + " — "@ + note)
    }
}

/// The target and the note are two fields but one archive slot: a typed
/// target rides along in the note rather than being dropped. Both are
/// trimmed; an empty field counts as absent.
pub fn compose_note(target: &str, note: &str) -> (r: Option<String>)
    ensures
        match r {
            Some(s) => note_text(trimmed(target@), trimmed(note@)) == Some(s@),
            None => note_text(trimmed(target@), trimmed(note@)) is None,
        },
{
    match (non_empty(target), non_empty(note)) {
        (None, None) => None,
        (None, Some(note)) => Some(note),
        (Some(target), None) => {
            let mut s = String::from_str("target: ");
            s.append(target.as_str());
            Some(s)
        },
        (Some(target), Some(note)) => {
            let mut s = String::from_str("target: ");
            s.append(target.as_str());
            s.append(" — ");
            s.append(note.as_str());
            Some(s)
        },
    }
}

/// `n` as exactly two decimal digits.
pub open spec fn two_digits(n: nat) -> Seq<char>
    recommends
        n < 100,
{
    if n < 10 {
        seq!['0'] + decimal(n)
    } else {
        decimal(n)
    }
}

/// `m:ss.t` for `ms` milliseconds: whole minutes, two-digit seconds, tenths.
pub open spec fn elapsed_text(ms: nat) -> Seq<char> {
    let seconds = ms / 1000;
    decimal(seconds / 60) + ":"@ + two_digits(seconds % 60) + "."@ + decimal((ms % 1000) / 100)
}

/// The recording timer's readout, e.g. `1:05.3`.
pub fn format_elapsed(ms: u32) -> (r: String)
    ensures
        r@ == elapsed_text(ms as nat),
{
    let seconds = ms / 1000;
    let mut s = String::new();
    push_decimal(&mut s, (seconds / 60) as u64);
    s.append(":");
    let secs = seconds % 60;
    if secs < 10 {
        s.append("0");
        proof {
            reveal_strlit("0");
        }
    }
    push_decimal(&mut s, secs as u64);
    s.append(".");
    push_decimal(&mut s, ((ms % 1000) / 100) as u64);
    proof {
        assert(s@ =~= elapsed_text(ms as nat));
    }
    s
}

/// The style of rating button `score` when `selected` is the chosen rating.
pub fn rating_class(selected: Option<u8>, score: u8) -> (r: &'static str)
    ensures
        r@ == (if selected == Some(score) {
            "rating rating-on"@
        } else {
            "rating"@
        }),
{
    if selected == Some(score) {
        "rating rating-on"
    } else {
        "rating"
    }
}

/// The prompt line of the drill screen for `state`: its style and its text.
/// `key` and `degree` are the ones picked for the next drill.
pub open spec fn prompt_spec<T>(state: SessionState<T>, key: Key, degree: Degree) -> (Seq<char>, Seq<char>) {
    match state {
        SessionState::Idle => (
            "prompt prompt-dim"@,
            "Space to hear do–mi–sol–do in "@ + key.tonic.label_spec() + " major, then sing "@
                + Degree::solfege_spec(degree.value()),
        ),
        SessionState::PlayingReference { key, .. } => (
            "prompt"@,
            "Listen — "@ + key.tonic.label_spec() + " major"@,
        ),
        SessionState::Listening { degree, .. } => (
            "prompt prompt-sing"@,
            "Sing: "@ + Degree::solfege_spec(degree.value()),
        ),
        SessionState::Review { degree, .. } => (
            "prompt prompt-dim"@,
            "How was your "@ + Degree::solfege_spec(degree.value()) + "?"@,
        ),
        SessionState::Saving { .. } => ("prompt prompt-dim"@, "Saving…"@),
        SessionState::Saved { id } => ("prompt prompt-dim"@, "Saved "@ + id@ + " — Space to go again"@),
    }
}

/// The big center line: what the singer should be doing right now.
pub fn prompt<T>(state: &SessionState<T>, key: Key, degree: Degree) -> (r: (&'static str, String))
    ensures
        (r.0@, r.1@) == prompt_spec(*state, key, degree),
{
    match state {
        SessionState::Idle => {
            let mut s = String::from_str("Space to hear do–mi–sol–do in ");
            s.append(key.tonic.label());
            s.append(" major, then sing ");
            s.append(degree.solfege_name());
            ("prompt prompt-dim", s)
        },
        SessionState::PlayingReference { key, .. } => {
            let mut s = String::from_str("Listen — ");
            s.append(key.tonic.label());
            s.append(" major");
            ("prompt", s)
        },
        SessionState::Listening { degree, .. } => {
            let mut s = String::from_str("Sing: ");
            s.append(degree.solfege_name());
            ("prompt prompt-sing", s)
        },
        SessionState::Review { degree, .. } => {
            let mut s = String::from_str("How was your ");
            s.append(degree.solfege_name());
            s.append("?");
            ("prompt prompt-dim", s)
        },
        SessionState::Saving { .. } => ("prompt prompt-dim", String::from_str("Saving…")),
        SessionState::Saved { id } => {
            let mut s = String::from_str("Saved ");
            s.append(id.as_str());
            s.append(" — Space to go again");
            ("prompt prompt-dim", s)
        },
    }
}

/// The drill event a key press asks for in `state`: Space starts a drill on
/// the picked tonic (major), degree and octave when idle or saved, and stops
/// while the reference plays or the mic listens; on review, 1-5 rate, Enter
/// saves and `h` plays the target. Anything else asks for nothing.
pub open spec fn shortcut_spec<T>(
    state: SessionState<T>,
    key: Seq<char>,
    tonic: PitchClass,
    degree: Degree,
    tonic_octave: i32,
) -> Option<Event<T>> {
    match state {
        SessionState::Idle | SessionState::Saved { .. } => if key == seq![' '] {
            Some(Event::Start { key: Key { tonic, mode: Mode::Major }, degree, tonic_octave })
        } else {
            None
        },
        SessionState::PlayingReference { .. } | SessionState::Listening { .. } => if key == seq![' '] {
            Some(Event::Stop)
        } else {
            None
        },
        SessionState::Review { .. } => if key.len() == 1 && '1' <= key[0] <= '5' {
            Some(Event::Rate((key[0] as int - '0' as int) as u8))
        } else if key == seq!['E', 'n', 't', 'e', 'r'] {
            Some(Event::Save)
        } else if key == seq!['h'] {
            Some(Event::HearTarget)
        } else {
            None
        },
        SessionState::Saving { .. } => None,
    }
}

/// Space asks for what the drill can take: wherever the session would start
/// a drill (idle, or after a save), Space starts one on the picked tonic in
/// major with the picked degree and octave; and whatever Space asks for in
/// any state, the session accepts.
pub proof fn lemma_space_asks_what_the_drill_accepts<T>(
    s: SessionState<T>,
    tonic: PitchClass,
    degree: Degree,
    tonic_octave: i32,
)
    ensures
        accepts(s, Event::<T>::Start { key: Key { tonic, mode: Mode::Major }, degree, tonic_octave })
            ==> shortcut_spec(s, seq![' '], tonic, degree, tonic_octave) == Some(
            Event::<T>::Start { key: Key { tonic, mode: Mode::Major }, degree, tonic_octave },
        ),
        shortcut_spec(s, seq![' '], tonic, degree, tonic_octave) matches Some(e) ==> accepts(s, e),
{
}

/// The prompt asks how the take went exactly in review: while the upload is
/// in flight it says only that it is saving, and no other state's prompt
/// opens with the rating question.
pub proof fn lemma_prompt_asks_for_a_rating_only_in_review<T>(s: SessionState<T>, key: Key, degree: Degree)
    ensures
        s is Saving ==> prompt_spec(s, key, degree) == ("prompt prompt-dim"@, "Saving…"@),
        (prompt_spec(s, key, degree).1.len() >= 13 && prompt_spec(s, key, degree).1.subrange(0, 13)
            == "How was your "@) <==> s is Review,
{
    reveal_strlit("How was your ");
    reveal_strlit("Space to hear do–mi–sol–do in ");
    reveal_strlit("Listen — ");
    reveal_strlit("Sing: ");
    reveal_strlit("Saving…");
    reveal_strlit("Saved ");
    let p = prompt_spec(s, key, degree).1;
    let q = "How was your "@;
    match s {
        SessionState::Review { degree: d, .. } => {
            assert(p.subrange(0, 13) =~= q);
        },
        _ => {
            if p.len() >= 13 && p.subrange(0, 13) == q {
                assert(p.subrange(0, 13)[0] == p[0]);
                assert(q[0] == 'H');
                assert(p[0] != 'H');
            }
        },
    }
}

/// Whether `key` spells exactly `word`.
fn key_is(key: &str, word: &str) -> (r: bool)
    ensures
        r == (key@ == word@),
{
    let n = key.unicode_len();
    if n != word.unicode_len() {
        return false;
    }
    let mut i: usize = 0;
    while i < n
        invariant
            n == key@.len(),
            n == word@.len(),
            0 <= i <= n,
            forall|j: int| 0 <= j < i ==> key@[j] == word@[j],
        decreases n - i,
    {
        if key.get_char(i) != word.get_char(i) {
            return false;
        }
        i = i + 1;
    }
    proof {
        assert(key@ =~= word@);
    }
    true
}

/// The keyboard shortcuts of the drill screen, as one decision.
pub fn drill_shortcut<T>(
    state: &SessionState<T>,
    key: &str,
    tonic: PitchClass,
    degree: Degree,
    tonic_octave: i32,
) -> (r: Option<Event<T>>)
    ensures
        r == shortcut_spec(*state, key@, tonic, degree, tonic_octave),
{
    proof {
        reveal_strlit(" ");
        reveal_strlit("Enter");
        reveal_strlit("h");
        assert(" "@ =~= seq![' ']);
        assert("Enter"@ =~= seq!['E', 'n', 't', 'e', 'r']);
        assert("h"@ =~= seq!['h']);
    }
    match state {
        SessionState::Idle | SessionState::Saved { .. } => if key_is(key, " ") {
            Some(Event::Start { key: Key::new(tonic, Mode::Major), degree, tonic_octave })
        } else {
            None
        },
        SessionState::PlayingReference { .. } | SessionState::Listening { .. } => if key_is(key, " ") {
            Some(Event::Stop)
        } else {
            None
        },
        SessionState::Review { .. } => {
            if key.unicode_len() == 1 {
                let c = key.get_char(0);
                if '1' <= c && c <= '5' {
                    return Some(Event::Rate(((c as u32) - ('0' as u32)) as u8));
                }
            }
            if key_is(key, "Enter") {
                Some(Event::Save)
            } else if key_is(key, "h") {
                Some(Event::HearTarget)
            } else {
                None
            }
        },
        SessionState::Saving { .. } => None,
    }
}

} // verus!
