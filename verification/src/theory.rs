//! Pure music-theory values and integer pitch arithmetic.
//!
//! Pitches are named by their absolute note number (the MIDI numbering:
//! C4 = 60, A4 = 69). The equal-temperament frequency of a pitch is a
//! function of its note number alone, so everything the drill decides about
//! "which pitch" is decided here, exactly, in integers.
use vstd::prelude::*;

verus! {

/// One of the twelve equal-temperament pitch classes, spelled with sharps.
#[derive(Debug, Clone, Copy, PartialEq, Eq, Hash, Structural)]
pub enum PitchClass {
    C,
    CSharp,
    D,
    DSharp,
    E,
    F,
    FSharp,
    G,
    GSharp,
    A,
    ASharp,
    B,
}

/// A scale mode: major or natural minor.
#[derive(Debug, Clone, Copy, PartialEq, Eq, Hash, Structural)]
pub enum Mode {
    Major,
    Minor,
}

/// A key: a tonic pitch class plus a mode.
#[derive(Debug, Clone, Copy, PartialEq, Eq, Hash, Structural)]
pub struct Key {
    pub tonic: PitchClass,
    pub mode: Mode,
}

/// A scale degree, 1..=7 (movable-do). Only [`Degree::new`] builds one, so
/// an out-of-range degree cannot exist.
#[derive(Debug, Clone, Copy, PartialEq, Eq, Hash, Structural)]
pub struct Degree(u8);

/// The pitch class `s` semitones above C, for `s` in `0..12`.
pub open spec fn pitch_class_at(s: int) -> PitchClass {
    if s == 0 {
        PitchClass::C
    } else if s == 1 {
        PitchClass::CSharp
    } else if s == 2 {
        PitchClass::D
    } else if s == 3 {
        PitchClass::DSharp
    } else if s == 4 {
        PitchClass::E
    } else if s == 5 {
        PitchClass::F
    } else if s == 6 {
        PitchClass::FSharp
    } else if s == 7 {
        PitchClass::G
    } else if s == 8 {
        PitchClass::GSharp
    } else if s == 9 {
        PitchClass::A
    } else if s == 10 {
        PitchClass::ASharp
    } else {
        PitchClass::B
    }
}

impl PitchClass {
    /// All twelve pitch classes in ascending chromatic order starting at C.
    pub const ALL: [PitchClass; 12] = [
        PitchClass::C,
        PitchClass::CSharp,
        PitchClass::D,
        PitchClass::DSharp,
        PitchClass::E,
        PitchClass::F,
        PitchClass::FSharp,
        PitchClass::G,
        PitchClass::GSharp,
        PitchClass::A,
        PitchClass::ASharp,
        PitchClass::B,
    ];

    /// Semitones above C: C = 0 .. B = 11.
    pub open spec fn semitone(self) -> int {
        match self {
            PitchClass::C => 0,
            PitchClass::CSharp => 1,
            PitchClass::D => 2,
            PitchClass::DSharp => 3,
            PitchClass::E => 4,
            PitchClass::F => 5,
            PitchClass::FSharp => 6,
            PitchClass::G => 7,
            PitchClass::GSharp => 8,
            PitchClass::A => 9,
            PitchClass::ASharp => 10,
            PitchClass::B => 11,
        }
    }

    /// The sharp spelling of the pitch class, as the archive writes it.
    pub open spec fn label_spec(self) -> Seq<char> {
        match self {
            PitchClass::C => seq!['C'],
            PitchClass::CSharp => seq!['C', '#'],
            PitchClass::D => seq!['D'],
            PitchClass::DSharp => seq!['D', '#'],
            PitchClass::E => seq!['E'],
            PitchClass::F => seq!['F'],
            PitchClass::FSharp => seq!['F', '#'],
            PitchClass::G => seq!['G'],
            PitchClass::GSharp => seq!['G', '#'],
            PitchClass::A => seq!['A'],
            PitchClass::ASharp => seq!['A', '#'],
            PitchClass::B => seq!['B'],
        }
    }

    /// Semitone offset from C (C = 0 .. B = 11).
    pub fn semitone_from_c(self) -> (r: u8)
        ensures
            r == self.semitone(),
            r < 12,
    {
        match self {
            PitchClass::C => 0,
            PitchClass::CSharp => 1,
            PitchClass::D => 2,
            PitchClass::DSharp => 3,
            PitchClass::E => 4,
            PitchClass::F => 5,
            PitchClass::FSharp => 6,
            PitchClass::G => 7,
            PitchClass::GSharp => 8,
            PitchClass::A => 9,
            PitchClass::ASharp => 10,
            PitchClass::B => 11,
        }
    }

    /// The pitch class `semitone` steps above C, modulo 12.
    pub fn from_semitone(semitone: u8) -> (r: PitchClass)
        ensures
            r == pitch_class_at((semitone % 12) as int),
            r.semitone() == semitone % 12,
    {
        let s = semitone % 12;
        if s == 0 {
            PitchClass::C
        } else if s == 1 {
            PitchClass::CSharp
        } else if s == 2 {
            PitchClass::D
        } else if s == 3 {
            PitchClass::DSharp
        } else if s == 4 {
            PitchClass::E
        } else if s == 5 {
            PitchClass::F
        } else if s == 6 {
            PitchClass::FSharp
        } else if s == 7 {
            PitchClass::G
        } else if s == 8 {
            PitchClass::GSharp
        } else if s == 9 {
            PitchClass::A
        } else if s == 10 {
            PitchClass::ASharp
        } else {
            PitchClass::B
        }
    }

    /// The sharp spelling: "C", "C#", "D", ... "B".
    pub fn label(self) -> (r: &'static str)
        ensures
            r@ == self.label_spec(),
    {
        proof {
            reveal_strlit("C");
            reveal_strlit("C#");
            reveal_strlit("D");
            reveal_strlit("D#");
            reveal_strlit("E");
            reveal_strlit("F");
            reveal_strlit("F#");
            reveal_strlit("G");
            reveal_strlit("G#");
            reveal_strlit("A");
            reveal_strlit("A#");
            reveal_strlit("B");
        }
        match self {
            PitchClass::C => "C",
            PitchClass::CSharp => "C#",
            PitchClass::D => "D",
            PitchClass::DSharp => "D#",
            PitchClass::E => "E",
            PitchClass::F => "F",
            PitchClass::FSharp => "F#",
            PitchClass::G => "G",
            PitchClass::GSharp => "G#",
            PitchClass::A => "A",
            PitchClass::ASharp => "A#",
            PitchClass::B => "B",
        }
    }

    /// The pitch class whose [`PitchClass::label`] is exactly `label`, if any.
    pub fn from_label(label: &str) -> (r: Option<PitchClass>)
        ensures
            match r {
                Some(pc) => pc.label_spec() == label@,
                None => forall|pc: PitchClass| pc.label_spec() != label@,
            },
    {
        let n = label.unicode_len();
        if n == 0 || n > 2 {
            assert forall|pc: PitchClass| pc.label_spec() != label@ by {
                assert(pc.label_spec().len() == 1 || pc.label_spec().len() == 2);
            }
            return None;
        }
        let letter = label.get_char(0);
        let sharp = if n == 2 {
            let c = label.get_char(1);
            if c != '#' {
                assert forall|pc: PitchClass| pc.label_spec() != label@ by {
                    if pc.label_spec().len() == 2 {
                        assert(pc.label_spec()[1] == '#');
                    }
                }
                return None;
            }
            true
        } else {
            false
        };
        let r = if !sharp {
            if letter == 'C' {
                Some(PitchClass::C)
            } else if letter == 'D' {
                Some(PitchClass::D)
            } else if letter == 'E' {
                Some(PitchClass::E)
            } else if letter == 'F' {
                Some(PitchClass::F)
            } else if letter == 'G' {
                Some(PitchClass::G)
            } else if letter == 'A' {
                Some(PitchClass::A)
            } else if letter == 'B' {
                Some(PitchClass::B)
            } else {
                None
            }
        } else {
            if letter == 'C' {
                Some(PitchClass::CSharp)
            } else if letter == 'D' {
                Some(PitchClass::DSharp)
            } else if letter == 'F' {
                Some(PitchClass::FSharp)
            } else if letter == 'G' {
                Some(PitchClass::GSharp)
            } else if letter == 'A' {
                Some(PitchClass::ASharp)
            } else {
                None
            }
        };
        proof {
            match r {
                Some(pc) => {
                    assert(pc.label_spec() =~= label@);
                },
                None => {
                    assert forall|pc: PitchClass| pc.label_spec() != label@ by {
                        if pc.label_spec() == label@ {
                            assert(pc.label_spec()[0] == label@[0]);
                        }
                    }
                },
            }
        }
        r
    }
}

impl Mode {
    /// Semitones above the tonic of the scale step with zero-based index `i`
    /// (degree `i + 1`): major W-W-H-W-W-W-H, natural minor W-H-W-W-H-W-W.
    pub open spec fn interval(self, i: int) -> int {
        match self {
            Mode::Major => if i == 0 {
                0
            } else if i == 1 {
                2
            } else if i == 2 {
                4
            } else if i == 3 {
                5
            } else if i == 4 {
                7
            } else if i == 5 {
                9
            } else {
                11
            },
            Mode::Minor => if i == 0 {
                0
            } else if i == 1 {
                2
            } else if i == 2 {
                3
            } else if i == 3 {
                5
            } else if i == 4 {
                7
            } else if i == 5 {
                8
            } else {
                10
            },
        }
    }

    /// Semitone offsets from the tonic for scale degrees 1..=7, in order.
    pub fn degree_intervals(self) -> (r: [u8; 7])
        ensures
            forall|i: int| 0 <= i < 7 ==> r@[i] == self.interval(i),
    {
        match self {
            Mode::Major => [0, 2, 4, 5, 7, 9, 11],
            Mode::Minor => [0, 2, 3, 5, 7, 8, 10],
        }
    }
}

impl Key {
    pub fn new(tonic: PitchClass, mode: Mode) -> (r: Key)
        ensures
            r.tonic == tonic,
            r.mode == mode,
    {
        Key { tonic, mode }
    }
}

impl Degree {
    #[verifier::type_invariant]
    spec fn in_scale(self) -> bool {
        1 <= self.0 <= 7
    }

    /// The 1..=7 scale position.
    pub closed spec fn value(self) -> int {
        if 1 <= self.0 <= 7 {
            self.0 as int
        } else {
            1
        }
    }

    /// Movable-do major-scale syllable of scale position `n`.
    pub open spec fn solfege_spec(n: int) -> Seq<char> {
        if n == 1 {
            seq!['d', 'o']
        } else if n == 2 {
            seq!['r', 'e']
        } else if n == 3 {
            seq!['m', 'i']
        } else if n == 4 {
            seq!['f', 'a']
        } else if n == 5 {
            seq!['s', 'o', 'l']
        } else if n == 6 {
            seq!['l', 'a']
        } else {
            seq!['t', 'i']
        }
    }

    /// Every degree's position lies in 1..=7.
    pub proof fn lemma_value_in_scale(d: Degree)
        ensures
            1 <= d.value() <= 7,
    {
    }

    /// Builds a degree from a 1..=7 scale position; `None` outside that range.
    pub fn new(n: u8) -> (r: Option<Degree>)
        ensures
            r is Some <==> 1 <= n <= 7,
            r matches Some(d) ==> d.value() == n,
    {
        if 1 <= n && n <= 7 {
            Some(Degree(n))
        } else {
            None
        }
    }

    /// The underlying 1..=7 scale position.
    pub fn get(self) -> (r: u8)
        ensures
            r == self.value(),
            1 <= r <= 7,
    {
        proof {
            use_type_invariant(&self);
        }
        self.0
    }

    /// Movable-do solfège name of this degree. Always the major-scale names
    /// (do re mi fa sol la ti), whatever the key's mode.
    pub fn solfege_name(self) -> (r: &'static str)
        ensures
            r@ == Self::solfege_spec(self.value()),
    {
        proof {
            use_type_invariant(&self);
            reveal_strlit("do");
            reveal_strlit("re");
            reveal_strlit("mi");
            reveal_strlit("fa");
            reveal_strlit("sol");
            reveal_strlit("la");
            reveal_strlit("ti");
        }
        let n = self.0;
        if n == 1 {
            "do"
        } else if n == 2 {
            "re"
        } else if n == 3 {
            "mi"
        } else if n == 4 {
            "fa"
        } else if n == 5 {
            "sol"
        } else if n == 6 {
            "la"
        } else {
            "ti"
        }
    }
}

/// Absolute note number of `pc` in `octave` (scientific pitch notation,
/// octave increments at C): C4 = 60, A4 = 69.
pub open spec fn note_spec(pc: PitchClass, octave: int) -> int {
    12 * (octave + 1) + pc.semitone()
}

/// The pitch class of absolute note number `n`.
pub open spec fn note_pitch_class(n: int) -> PitchClass {
    pitch_class_at(n % 12)
}

/// The octave (scientific pitch notation) of absolute note number `n`.
pub open spec fn note_octave(n: int) -> int {
    n / 12 - 1
}

/// Semitones of `degree` above the tonic of `key`.
pub open spec fn degree_interval(key: Key, degree: Degree) -> int {
    key.mode.interval(degree.value() - 1)
}

/// Absolute note number of `degree` in `key` with the tonic in `tonic_octave`.
pub open spec fn degree_note(key: Key, degree: Degree, tonic_octave: int) -> int {
    note_spec(key.tonic, tonic_octave) + degree_interval(key, degree)
}

/// The note of `pc` in `octave` is computed without leaving `i32`: the
/// octave's C and the note itself both fit.
pub open spec fn note_fits(pc: PitchClass, octave: int) -> bool {
    i32::MIN <= 12 * (octave + 1) && note_spec(pc, octave) <= i32::MAX
}

/// The note of `degree` in `key` with the tonic in `tonic_octave` is
/// computed without leaving `i32`.
pub open spec fn degree_fits(key: Key, degree: Degree, tonic_octave: int) -> bool {
    i32::MIN <= 12 * (tonic_octave + 1) && degree_note(key, degree, tonic_octave) <= i32::MAX
}

/// Every note of the do-mi-sol-do arpeggio of `key` from `tonic_octave` is
/// computed without leaving `i32`; the highest is the tonic an octave up.
pub open spec fn arpeggio_fits(key: Key, tonic_octave: int) -> bool {
    i32::MIN <= 12 * (tonic_octave + 1) && note_spec(key.tonic, tonic_octave + 1) <= i32::MAX
}

/// Whether the note of `degree` in `key` from `tonic_octave` fits an `i32`.
pub fn degree_in_range(key: Key, degree: Degree, tonic_octave: i32) -> (r: bool)
    ensures
        r == degree_fits(key, degree, tonic_octave as int),
{
    let c: i64 = 12 * (tonic_octave as i64 + 1);
    let n: i64 = c + key.tonic.semitone_from_c() as i64 + degree_interval_semitones(key, degree) as i64;
    i32::MIN as i64 <= c && n <= i32::MAX as i64
}

/// Whether every note of the do-mi-sol-do arpeggio of `key` from
/// `tonic_octave` fits an `i32`.
pub fn arpeggio_in_range(key: Key, tonic_octave: i32) -> (r: bool)
    ensures
        r == arpeggio_fits(key, tonic_octave as int),
{
    let c: i64 = 12 * (tonic_octave as i64 + 1);
    let top: i64 = 12 * (tonic_octave as i64 + 2) + key.tonic.semitone_from_c() as i64;
    i32::MIN as i64 <= c && top <= i32::MAX as i64
}

/// Absolute note number for a pitch class in a given octave, numbered as MIDI
/// numbers them (C4 = 60, A4 = 69).
pub fn note_number(pitch_class: PitchClass, octave: i32) -> (r: i32)
    requires
        note_fits(pitch_class, octave as int),
    ensures
        r == note_spec(pitch_class, octave as int),
{
    12 * (octave + 1) + pitch_class.semitone_from_c() as i32
}

/// Inverse of [`note_number`]: the (pitch class, octave) a note number denotes.
pub fn from_note_number(note_number: i32) -> (r: (PitchClass, i32))
    ensures
        r.0 == note_pitch_class(note_number as int),
        r.1 == note_octave(note_number as int),
{
    // Shift by a multiple of 12 large enough to make every i32 non-negative,
    // so plain unsigned division gives the Euclidean quotient and remainder.
    let shifted: u64 = (note_number as i64 + 25_769_803_776i64) as u64;
    let q: u64 = shifted / 12;
    let rem: u64 = shifted % 12;
    proof {
        let n = note_number as int;
        assert(shifted as int == n + 12 * 2147483648);
        assert(q as int == n / 12 + 2147483648) by (nonlinear_arith)
            requires
                shifted as int == n + 12 * 2147483648,
                q as int == (shifted as int) / 12,
        ;
        assert(rem as int == n % 12) by (nonlinear_arith)
            requires
                shifted as int == n + 12 * 2147483648,
                rem as int == (shifted as int) % 12,
        ;
    }
    let octave: i32 = (q as i64 - 2_147_483_648i64 - 1) as i32;
    (PitchClass::from_semitone(rem as u8), octave)
}

/// Semitone offset of `degree` above the key's tonic, per the key's mode.
pub fn degree_interval_semitones(key: Key, degree: Degree) -> (r: i32)
    ensures
        r == degree_interval(key, degree),
        0 <= r <= 11,
{
    let intervals = key.mode.degree_intervals();
    let i = (degree.get() - 1) as usize;
    let r = intervals[i];
    assert(r == key.mode.interval(i as int));
    r as i32
}

/// Absolute note number of a scale degree in `key`, with the tonic placed in
/// `tonic_octave`; its equal-temperament frequency is the degree's pitch.
pub fn degree_note_number(key: Key, degree: Degree, tonic_octave: i32) -> (r: i32)
    requires
        degree_fits(key, degree, tonic_octave as int),
    ensures
        r == degree_note(key, degree, tonic_octave as int),
{
    let interval = degree_interval_semitones(key, degree);
    note_number(key.tonic, tonic_octave) + interval
}

/// Octave placement: the (pitch class, octave) a scale degree lands on when
/// the tonic sits in `tonic_octave`, with the octave incrementing at C (the
/// 7th degree of D major from D4 is C#5).
pub fn place_degree(key: Key, tonic_octave: i32, degree: Degree) -> (r: (PitchClass, i32))
    requires
        degree_fits(key, degree, tonic_octave as int),
    ensures
        r.0 == note_pitch_class(degree_note(key, degree, tonic_octave as int)),
        r.1 == note_octave(degree_note(key, degree, tonic_octave as int)),
{
    let interval = degree_interval_semitones(key, degree);
    let tonic_note = note_number(key.tonic, tonic_octave);
    let target_note = tonic_note + interval;
    from_note_number(target_note)
}

/// Note numbers of the do-mi-sol-do establishing arpeggio: degrees 1, 3, 5
/// with the tonic in `tonic_octave`, then degree 1 an octave up.
pub fn arpeggio_note_numbers(key: Key, tonic_octave: i32) -> (r: [i32; 4])
    requires
        arpeggio_fits(key, tonic_octave as int),
    ensures
        r@[0] == note_spec(key.tonic, tonic_octave as int),
        r@[1] == note_spec(key.tonic, tonic_octave as int) + key.mode.interval(2),
        r@[2] == note_spec(key.tonic, tonic_octave as int) + 7,
        r@[3] == note_spec(key.tonic, tonic_octave as int + 1),
        r@[3] == r@[0] + 12,
{
    let do_low = Degree(1);
    let mi = Degree(3);
    let sol = Degree(5);
    [
        degree_note_number(key, do_low, tonic_octave),
        degree_note_number(key, mi, tonic_octave),
        degree_note_number(key, sol, tonic_octave),
        degree_note_number(key, do_low, tonic_octave + 1),
    ]
}

/// A note number and its (pitch class, octave) name each determine the
/// other: naming a pitch and numbering it again gives back the pitch class
/// and octave you started from.
pub proof fn lemma_note_name_round_trip(pc: PitchClass, octave: int)
    ensures
        note_pitch_class(note_spec(pc, octave)) == pc,
        note_octave(note_spec(pc, octave)) == octave,
{
    let n = note_spec(pc, octave);
    assert(n % 12 == pc.semitone() && n / 12 == octave + 1) by (nonlinear_arith)
        requires
            n == 12 * (octave + 1) + pc.semitone(),
            0 <= pc.semitone() < 12,
    ;
}

/// Numbering the name of a note number gives back that note number.
pub proof fn lemma_note_number_round_trip(n: int)
    ensures
        note_spec(note_pitch_class(n), note_octave(n)) == n,
{
    assert(n == 12 * (n / 12) + n % 12) by (nonlinear_arith);
    assert(0 <= n % 12 < 12) by (nonlinear_arith);
}

/// Moving the tonic up an octave moves every degree up exactly twelve
/// semitones, keeping its pitch class.
pub proof fn lemma_octave_shift(key: Key, degree: Degree, tonic_octave: int)
    ensures
        degree_note(key, degree, tonic_octave + 1) == degree_note(key, degree, tonic_octave) + 12,
        note_pitch_class(degree_note(key, degree, tonic_octave + 1)) == note_pitch_class(
            degree_note(key, degree, tonic_octave),
        ),
        note_octave(degree_note(key, degree, tonic_octave + 1)) == note_octave(
            degree_note(key, degree, tonic_octave),
        ) + 1,
{
    let n = degree_note(key, degree, tonic_octave);
    assert((n + 12) % 12 == n % 12 && (n + 12) / 12 == n / 12 + 1) by (nonlinear_arith);
}

/// The pitch class of every note of every scale is consistent with the
/// semitone count: the class `s` steps above C has semitone `s` (mod 12).
pub proof fn lemma_pitch_class_semitone_round_trip(pc: PitchClass, s: int)
    ensures
        pitch_class_at(pc.semitone()) == pc,
        0 <= s < 12 ==> pitch_class_at(s).semitone() == s,
{
}

} // verus!
