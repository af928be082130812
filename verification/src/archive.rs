//! The plain-files practice archive: what is minted and derived when a take
//! is appended (ids, WAV paths, audio facts) and how the append-only
//! `log.jsonl` of a day is read back line by line.
//!
//! Layout: `<root>/YYYY-MM-DD/log.jsonl` plus `<root>/YYYY-MM-DD/samples/*.wav`.
//! The archive is append-only by construction: nothing here rewrites or
//! deletes a row.
use vstd::prelude::*;
use vstd::string::*;

use std::path::PathBuf;

use crate::text::{hex4, push_hex4};

verus! {

/// The archive schema version this crate reads and writes.
pub const SCHEMA_VERSION: u32 = 1;

/// The `kind` every row written today carries.
pub const KIND_SAMPLE: &'static str = "sample";

/// The WAV file a row points to and how to interpret its bytes.
#[derive(Debug, Clone, PartialEq)]
pub struct AudioMeta {
    /// Day-dir-relative path, e.g. `samples/113211-a1b2.wav`.
    pub path: String,
    /// The device's actual capture rate, never assumed.
    pub sample_rate: u32,
    pub channels: u16,
    pub bit_depth: u16,
    pub duration_ms: u64,
}

/// Best-effort provenance for the capture.
#[derive(Debug, Clone, PartialEq)]
pub struct CaptureMeta {
    pub device_label: String,
    pub user_agent: String,
    pub app_git_sha: String,
}

/// A practice archive rooted at a directory of self-contained day dirs.
#[derive(Debug)]
pub struct Archive {
    root: PathBuf,
}

impl Archive {
    /// The directory the day dirs live in.
    pub closed spec fn root_spec(&self) -> PathBuf {
        self.root
    }

    pub fn new(root: PathBuf) -> (r: Archive)
        ensures
            r.root_spec() == root,
    {
        Archive { root }
    }

    /// The directory the day dirs live in.
    pub fn root(&self) -> (r: &PathBuf)
        ensures
            *r == self.root_spec(),
    {
        &self.root
    }
}

/// Whole milliseconds of audio in `n_samples` samples at `sample_rate`
/// (zero for a zero rate).
pub open spec fn duration_spec(n_samples: int, sample_rate: int) -> int {
    if sample_rate == 0 {
        0
    } else {
        (n_samples * 1000) / sample_rate
    }
}

/// The clip length in whole milliseconds of `n_samples` samples captured at
/// `sample_rate` Hz, rounded down; zero when the rate is zero.
pub fn duration_ms(n_samples: u64, sample_rate: u32) -> (r: u64)
    requires
        n_samples * 1000 <= u64::MAX,
    ensures
        r == duration_spec(n_samples as int, sample_rate as int),
{
    if sample_rate == 0 {
        0
    } else {
        (n_samples * 1000) / sample_rate as u64
    }
}

impl AudioMeta {
    /// The audio facts of a 16-bit mono WAV of `n_samples` samples at
    /// `sample_rate`, written to the day-dir-relative `path`.
    pub fn mono16(path: String, sample_rate: u32, n_samples: u64) -> (r: AudioMeta)
        requires
            n_samples * 1000 <= u64::MAX,
        ensures
            r.path == path,
            r.sample_rate == sample_rate,
            r.channels == 1,
            r.bit_depth == 16,
            r.duration_ms == duration_spec(n_samples as int, sample_rate as int),
    {
        AudioMeta {
            path,
            sample_rate,
            channels: 1,
            bit_depth: 16,
            duration_ms: duration_ms(n_samples, sample_rate),
        }
    }
}

/// What a caller hands the archive for a new take: the drill tags (carried
/// as they come), the rating and note, the actual capture rate, and the
/// provenance. Everything minted or derived is added on append.
#[derive(Debug, Clone)]
pub struct NewSample<D> {
    pub drill: D,
    pub self_rating: Option<u8>,
    pub note: Option<String>,
    pub sample_rate: u32,
    pub capture: CaptureMeta,
}

/// One line of `log.jsonl`: a single recorded take plus its tags.
#[derive(Debug, Clone)]
pub struct SampleRow<D> {
    pub schema_version: u32,
    pub id: String,
    /// RFC 3339 with the local offset, e.g. `2026-08-19T11:32:11-07:00`.
    pub recorded_at: String,
    pub kind: String,
    pub drill: D,
    pub self_rating: Option<u8>,
    pub note: Option<String>,
    pub audio: AudioMeta,
    pub capture: CaptureMeta,
}

/// What an append hands back: the minted id, the day-dir-relative WAV path,
/// and the row written.
#[derive(Debug, Clone)]
pub struct SavedSample<D> {
    pub id: String,
    pub path: String,
    pub row: SampleRow<D>,
}

/// The row of a take appended at `recorded_at` under `id`, whose
/// `n_samples` samples were written to `wav_path`: the current schema and
/// kind, the caller's tags and provenance as given, and the audio facts of
/// the 16-bit mono WAV.
pub fn sample_row<D>(meta: NewSample<D>, id: String, recorded_at: String, wav_path: String, n_samples: u64) -> (r: SampleRow<D>)
    requires
        n_samples * 1000 <= u64::MAX,
    ensures
        r.schema_version == SCHEMA_VERSION,
        r.id == id,
        r.recorded_at == recorded_at,
        r.kind@ == KIND_SAMPLE@,
        r.drill == meta.drill,
        r.self_rating == meta.self_rating,
        r.note == meta.note,
        r.audio.path == wav_path,
        r.audio.sample_rate == meta.sample_rate,
        r.audio.channels == 1,
        r.audio.bit_depth == 16,
        r.audio.duration_ms == duration_spec(n_samples as int, meta.sample_rate as int),
        r.capture == meta.capture,
{
    SampleRow {
        schema_version: SCHEMA_VERSION,
        id,
        recorded_at,
        kind: String::from_str(KIND_SAMPLE),
        drill: meta.drill,
        self_rating: meta.self_rating,
        note: meta.note,
        audio: AudioMeta::mono16(wav_path, meta.sample_rate, n_samples),
        capture: meta.capture,
    }
}

impl<D> SavedSample<D> {
    /// The outcome of appending `row`: its id and WAV path, and the row.
    pub fn of(row: SampleRow<D>) -> (r: SavedSample<D>)
        ensures
            r.id == row.id,
            r.path == row.audio.path,
            r.row == row,
    {
        SavedSample { id: row.id.clone(), path: row.audio.path.clone(), row }
    }
}

/// The same-second disambiguator mixed from the clock's sub-second
/// nanoseconds, a per-process counter and the process id.
pub open spec fn mix_spec(nanos: u32, count: u32, pid: u32) -> u16 {
    ((nanos ^ count.wrapping_mul(0x9E37_79B1u32) ^ pid) & 0xFFFFu32) as u16
}

/// A 4-hex-digit disambiguator for ids and filenames minted in the same
/// second: not cryptographic, just enough to make same-second collisions
/// from one process implausible.
pub fn hex_suffix(nanos: u32, count: u32, pid: u32) -> (r: String)
    ensures
        r@ == hex4(mix_spec(nanos, count, pid)),
{
    let mixed: u32 = nanos ^ count.wrapping_mul(0x9E37_79B1u32) ^ pid;
    let mut r = String::new();
    push_hex4(&mut r, (mixed & 0xFFFFu32) as u16);
    r
}

/// `smp-<YYYYMMDD>-<HHMMSS>-<suffix>`.
pub open spec fn sample_id_spec(date_compact: Seq<char>, hhmmss: Seq<char>, suffix: Seq<char>) -> Seq<char> {
    seq!['s', 'm', 'p', '-'] + date_compact + seq!['-'] + hhmmss + seq!['-'] + suffix
}

/// `samples/<HHMMSS>-<suffix>.wav`.
pub open spec fn wav_path_spec(hhmmss: Seq<char>, suffix: Seq<char>) -> Seq<char> {
    seq!['s', 'a', 'm', 'p', 'l', 'e', 's', '/'] + hhmmss + seq!['-'] + suffix + seq![
        '.',
        'w',
        'a',
        'v',
    ]
}

/// The id a take recorded at `date_compact` (`YYYYMMDD`) `hhmmss` gets.
pub fn sample_id(date_compact: &str, hhmmss: &str, suffix: &str) -> (r: String)
    ensures
        r@ == sample_id_spec(date_compact@, hhmmss@, suffix@),
{
    proof {
        reveal_strlit("smp-");
        reveal_strlit("-");
    }
    let mut r = String::from_str("smp-");
    r.append(date_compact);
    r.append("-");
    r.append(hhmmss);
    r.append("-");
    r.append(suffix);
    proof {
        assert(r@ =~= sample_id_spec(date_compact@, hhmmss@, suffix@));
    }
    r
}

/// The day-dir-relative path of the WAV of a take recorded at `hhmmss`.
pub fn wav_path(hhmmss: &str, suffix: &str) -> (r: String)
    ensures
        r@ == wav_path_spec(hhmmss@, suffix@),
{
    proof {
        reveal_strlit("samples/");
        reveal_strlit("-");
        reveal_strlit(".wav");
    }
    let mut r = String::from_str("samples/");
    r.append(hhmmss);
    r.append("-");
    r.append(suffix);
    r.append(".wav");
    proof {
        assert(r@ =~= wav_path_spec(hhmmss@, suffix@));
    }
    r
}

/// Unicode `White_Space`, the characters `char::is_whitespace` accepts.
pub open spec fn is_white_space(c: char) -> bool {
    let u = c as u32;
    ||| 0x9 <= u <= 0xD
    ||| u == 0x20
    ||| u == 0x85
    ||| u == 0xA0
    ||| u == 0x1680
    ||| 0x2000 <= u <= 0x200A
    ||| u == 0x2028
    ||| u == 0x2029
    ||| u == 0x202F
    ||| u == 0x205F
    ||| u == 0x3000
}

/// A line with nothing but white space in it (or nothing at all).
pub open spec fn is_blank(line: Seq<char>) -> bool {
    forall|i: int| 0 <= i < line.len() ==> is_white_space(#[trigger] line[i])
}

/// A line with its `\r` of a `\r\n` ending removed.
pub open spec fn strip_cr(line: Seq<char>) -> Seq<char> {
    if line.len() > 0 && line.last() == '\r' {
        line.drop_last()
    } else {
        line
    }
}

/// Reading `s` left to right: the lines completed by a `\n` so far (each
/// without its `\n` or `\r\n` ending), and the unterminated rest.
pub open spec fn scan_lines(s: Seq<char>) -> (Seq<Seq<char>>, Seq<char>)
    decreases s.len(),
{
    if s.len() == 0 {
        (Seq::empty(), Seq::empty())
    } else {
        let (done, part) = scan_lines(s.drop_last());
        if s.last() == '\n' {
            (done.push(strip_cr(part)), Seq::empty())
        } else {
            (done, part.push(s.last()))
        }
    }
}

/// The lines of `s` as `str::lines` splits them: at `\n` or `\r\n`, with a
/// final unterminated line kept as it is and no empty line after a final
/// `\n`.
pub open spec fn text_lines(s: Seq<char>) -> Seq<Seq<char>> {
    let (done, part) = scan_lines(s);
    if part.len() > 0 {
        done.push(part)
    } else {
        done
    }
}

/// The lines of `ls` that hold more than white space, in order.
pub open spec fn non_blank(ls: Seq<Seq<char>>) -> Seq<Seq<char>>
    decreases ls.len(),
{
    if ls.len() == 0 {
        Seq::empty()
    } else if is_blank(ls.last()) {
        non_blank(ls.drop_last())
    } else {
        non_blank(ls.drop_last()).push(ls.last())
    }
}

/// Whether `line` holds nothing but white space.
fn blank(line: &Vec<char>) -> (r: bool)
    ensures
        r == is_blank(line@),
{
    let mut i: usize = 0;
    while i < line.len()
        invariant
            0 <= i <= line@.len(),
            forall|j: int| 0 <= j < i ==> is_white_space(#[trigger] line@[j]),
        decreases line@.len() - i,
    {
        let u = line[i] as u32;
        let ws = (0x9 <= u && u <= 0xD) || u == 0x20 || u == 0x85 || u == 0xA0 || u == 0x1680
            || (0x2000 <= u && u <= 0x200A) || u == 0x2028 || u == 0x2029 || u == 0x202F
            || u == 0x205F || u == 0x3000;
        if !ws {
            return false;
        }
        i = i + 1;
    }
    true
}

/// The rows of a day's `log.jsonl` to parse: its lines, split as
/// `str::lines` splits them, with every blank line dropped.
pub fn log_lines(contents: &[char]) -> (r: Vec<Vec<char>>)
    ensures
        r@.len() == non_blank(text_lines(contents@)).len(),
        forall|k: int| 0 <= k < r@.len() ==> #[trigger] r@[k]@ == non_blank(text_lines(contents@))[k],
{
    let mut out: Vec<Vec<char>> = Vec::new();
    let mut part: Vec<char> = Vec::new();
    let n = contents.len();
    let mut i: usize = 0;
    while i < n
        invariant
            n == contents@.len(),
            0 <= i <= n,
            part@ == scan_lines(contents@.take(i as int)).1,
            out@.len() == non_blank(scan_lines(contents@.take(i as int)).0).len(),
            forall|k: int| 0 <= k < out@.len() ==> #[trigger] out@[k]@ == non_blank(
                scan_lines(contents@.take(i as int)).0,
            )[k],
        decreases n - i,
    {
        let c = contents[i];
        proof {
            assert(contents@.take(i + 1).drop_last() =~= contents@.take(i as int));
            assert(contents@.take(i + 1).last() == c);
        }
        if c == '\n' {
            let mut line: Vec<char> = Vec::new();
            std::mem::swap(&mut line, &mut part);
            if line.len() > 0 && line[line.len() - 1] == '\r' {
                line.pop();
            }
            proof {
                assert(line@ =~= strip_cr(scan_lines(contents@.take(i as int)).1));
            }
            let ghost done = scan_lines(contents@.take(i as int)).0;
            if !blank(&line) {
                out.push(line);
                proof {
                    assert(done.push(line@).drop_last() =~= done);
                }
            } else {
                proof {
                    assert(done.push(line@).drop_last() =~= done);
                }
            }
        } else {
            part.push(c);
        }
        i = i + 1;
    }
    proof {
        assert(contents@.take(n as int) =~= contents@);
    }
    let ghost done = scan_lines(contents@).0;
    if part.len() > 0 && !blank(&part) {
        out.push(part);
        proof {
            assert(done.push(part@).drop_last() =~= done);
        }
    } else if part.len() > 0 {
        proof {
            assert(done.push(part@).drop_last() =~= done);
        }
    }
    out
}

/// One `log.jsonl` entry: the serialized row followed by its newline.
pub fn frame_line(row_json: &str) -> (r: String)
    ensures
        r@ == row_json@.push('\n'),
{
    proof {
        reveal_strlit("\n");
    }
    let mut r = String::from_str(row_json);
    r.append("\n");
    proof {
        assert(r@ =~= row_json@.push('\n'));
    }
    r
}

/// The rows that parsed, in log order; a row that failed to parse is
/// skipped so that one bad line does not hide every good one.
pub fn parsed_rows<R, E>(results: Vec<Result<R, E>>) -> (r: Vec<R>)
    ensures
        r@ == parsed_spec(results@),
{
    let mut results = results;
    let ghost all = results@;
    let mut rev: Vec<R> = Vec::new();
    // Take the results from the back, then restore their order.
    while results.len() > 0
        invariant
            results@ == all.take(results@.len() as int),
            parsed_spec(all) == parsed_spec(results@) + rev@.reverse(),
            results@.len() <= all.len(),
        decreases results@.len(),
    {
        let ghost before = results@;
        let last = results.pop().unwrap();
        proof {
            assert(before.drop_last() =~= results@);
            assert(all.take(results@.len() as int) =~= before.drop_last());
        }
        match last {
            Ok(row) => {
                let ghost old_rev = rev@;
                rev.push(row);
                proof {
                    assert(rev@.reverse() =~= seq![row] + old_rev.reverse());
                    assert(parsed_spec(before) == parsed_spec(results@).push(row));
                    assert(parsed_spec(results@).push(row) + old_rev.reverse() =~= parsed_spec(results@)
                        + (seq![row] + old_rev.reverse()));
                }
            },
            Err(_) => {},
        }
    }
    let mut out: Vec<R> = Vec::new();
    while rev.len() > 0
        invariant
            parsed_spec(all) == out@ + rev@.reverse(),
        decreases rev@.len(),
    {
        let ghost before = rev@;
        let row = rev.pop().unwrap();
        proof {
            assert(before.reverse() =~= seq![row] + rev@.reverse());
            assert(out@.push(row) + rev@.reverse() =~= out@ + (seq![row] + rev@.reverse()));
        }
        out.push(row);
    }
    proof {
        assert(out@ + rev@.reverse() =~= out@);
    }
    out
}

/// The `Ok` values of `results`, in order.
pub open spec fn parsed_spec<R, E>(results: Seq<Result<R, E>>) -> Seq<R>
    decreases results.len(),
{
    if results.len() == 0 {
        Seq::empty()
    } else {
        match results.last() {
            Ok(row) => parsed_spec(results.drop_last()).push(row),
            Err(_) => parsed_spec(results.drop_last()),
        }
    }
}

/// Reading keeps exactly the rows that parsed, in log order: one row gives
/// itself when it parsed and nothing when it did not, and reading two
/// stretches of a log gives the rows of the first followed by those of the
/// second, so no bad row anywhere hides a good one.
pub proof fn lemma_parsed_keeps_the_good_rows<R, E>(a: Seq<Result<R, E>>, b: Seq<Result<R, E>>, row: R, err: E)
    ensures
        parsed_spec(a + b) == parsed_spec(a) + parsed_spec(b),
        parsed_spec(seq![Ok::<R, E>(row)]) == seq![row],
        parsed_spec(seq![Err::<R, E>(err)]) == Seq::<R>::empty(),
    decreases b.len(),
{
    let one_ok = seq![Ok::<R, E>(row)];
    let one_err = seq![Err::<R, E>(err)];
    assert(one_ok.drop_last() =~= Seq::<Result<R, E>>::empty());
    assert(one_err.drop_last() =~= Seq::<Result<R, E>>::empty());
    assert(one_ok.last() == Ok::<R, E>(row));
    assert(one_err.last() == Err::<R, E>(err));
    assert(parsed_spec(Seq::<Result<R, E>>::empty()) =~= Seq::<R>::empty());
    assert(parsed_spec(one_ok) =~= seq![row]);
    assert(parsed_spec(one_err) =~= Seq::<R>::empty());
    if b.len() == 0 {
        assert(a + b =~= a);
        assert(parsed_spec(a) + parsed_spec(b) =~= parsed_spec(a));
    } else {
        lemma_parsed_keeps_the_good_rows(a, b.drop_last(), row, err);
        assert((a + b).drop_last() =~= a + b.drop_last());
        assert((a + b).last() == b.last());
        match b.last() {
            Ok(r) => {
                assert(parsed_spec(a) + parsed_spec(b.drop_last()).push(r) =~= (parsed_spec(a)
                    + parsed_spec(b.drop_last())).push(r));
            },
            Err(_) => {},
        }
    }
}

/// Reading text that continues a log with a stretch holding no newline
/// extends the unterminated rest and completes no line.
proof fn lemma_scan_without_newline(c: Seq<char>, l: Seq<char>)
    requires
        forall|i: int| 0 <= i < l.len() ==> l[i] != '\n',
    ensures
        scan_lines(c + l) == (scan_lines(c).0, scan_lines(c).1 + l),
    decreases l.len(),
{
    if l.len() == 0 {
        assert(c + l =~= c);
        assert(scan_lines(c).1 + l =~= scan_lines(c).1);
    } else {
        let m = l.drop_last();
        lemma_scan_without_newline(c, m);
        assert((c + l).drop_last() =~= c + m);
        assert(scan_lines(c).1 + m.push(l.last()) =~= scan_lines(c).1 + l);
        assert(m.push(l.last()) =~= l);
    }
}

/// Appending one framed entry to a log that is empty or ends in a newline
/// adds exactly that entry to what a reader of the day gets back, after the
/// entries already there: the log only ever grows at its end.
pub proof fn lemma_append_reads_back(contents: Seq<char>, row_json: Seq<char>)
    requires
        contents.len() == 0 || contents.last() == '\n',
        forall|i: int| 0 <= i < row_json.len() ==> row_json[i] != '\n',
        row_json.len() > 0,
        row_json.last() != '\r',
        !is_blank(row_json),
    ensures
        non_blank(text_lines(contents + row_json.push('\n'))) == non_blank(text_lines(contents)).push(
            row_json,
        ),
{
    let s = contents + row_json.push('\n');
    lemma_scan_without_newline(contents, row_json);
    assert(s.drop_last() =~= contents + row_json);
    if contents.len() > 0 {
        assert(contents.drop_last().push(contents.last()) =~= contents);
    }
    assert(scan_lines(contents).1.len() == 0);
    assert(scan_lines(contents).1 + row_json =~= row_json);
    assert(strip_cr(row_json) == row_json);
    let done = scan_lines(contents).0;
    assert(text_lines(contents) == done);
    assert(text_lines(s) == done.push(row_json));
    assert(done.push(row_json).drop_last() =~= done);
}

} // verus!
