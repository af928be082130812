//! The streaming side of the pitch tracker: which analysis windows exist and
//! when they complete, independent of the block sizes audio arrives in.
//!
//! Samples are opaque values of type `S`; the tracker buffers the most recent
//! window of them in a ring and hands back, for every analysis instant, the
//! window ending there in chronological order. Whoever runs the detector on
//! a window gets the same windows whether audio arrived one sample at a time
//! or as one whole recorded take.
use vstd::prelude::*;

verus! {

/// Windows are never shorter than this many samples.
pub const MIN_WINDOW: usize = 512;

/// Nor longer than this many.
pub const MAX_WINDOW: usize = 8192;

/// Nominal analysis window: 42.7 ms, written as 427 / 10000 of a second.
pub open spec fn ideal_window_sq_scaled(sample_rate: int) -> int {
    sample_rate * sample_rate * 182329
}

/// The ideal window `sample_rate * 0.0427` samples is at least `2^(k - 1/2)`,
/// so the power of two nearest to it on a log scale is at least `2^k`.
/// Squared and scaled by 10^8 to stay in integers: `(r * 427)^2 >= 2^(2k-1) * 10^8`.
pub open spec fn nearest_pow2_at_least(sample_rate: int, k: nat) -> bool {
    ideal_window_sq_scaled(sample_rate) >= vstd::arithmetic::power2::pow2((2 * k - 1) as nat) * 100000000
}

/// The power-of-two window nearest (on a log scale) to 42.7 ms at this rate,
/// clamped to 512..=8192 samples.
pub open spec fn window_len_for(sample_rate: int) -> int {
    if nearest_pow2_at_least(sample_rate, 13) {
        8192
    } else if nearest_pow2_at_least(sample_rate, 12) {
        4096
    } else if nearest_pow2_at_least(sample_rate, 11) {
        2048
    } else if nearest_pow2_at_least(sample_rate, 10) {
        1024
    } else {
        512
    }
}

/// The square of the ideal window `rate * 0.0427`, scaled by 10^8:
/// `(rate * 427)^2`.
pub open spec fn ideal_window_sq(sample_rate: int) -> int {
    (sample_rate * 427) * (sample_rate * 427)
}

/// `w` is the power of two from 512 to 8192 nearest on a log scale to the
/// ideal window `x = rate * 0.0427`: `w / sqrt 2 <= x` unless `w` is the
/// smallest, and `x < w * sqrt 2` unless `w` is the largest (squared and
/// scaled by 10^8 to stay in integers).
pub open spec fn nearest_window(sample_rate: int, w: int) -> bool {
    let x2 = ideal_window_sq(sample_rate);
    &&& (w == 512 || w == 1024 || w == 2048 || w == 4096 || w == 8192)
    &&& (w == 512 || 2 * x2 >= w * w * 100000000)
    &&& (w == 8192 || x2 < 2 * w * w * 100000000)
}

/// For every capture rate the chosen window is the power of two nearest on
/// a log scale to 42.7 ms, clamped to 512..=8192 samples.
pub proof fn lemma_window_is_nearest_power_of_two(sample_rate: int)
    ensures
        nearest_window(sample_rate, window_len_for(sample_rate)),
{
    vstd::arithmetic::power2::lemma2_to64();
    vstd::arithmetic::power2::lemma2_to64_rest();
    assert(ideal_window_sq(sample_rate) == ideal_window_sq_scaled(sample_rate)) by (nonlinear_arith);
}

/// The power-of-two analysis window nearest to 42.7 ms at this capture rate,
/// clamped to `[512, 8192]` samples: 2048 at both 44.1 kHz and 48 kHz.
pub fn window_for(sample_rate: u32) -> (r: usize)
    ensures
        r == window_len_for(sample_rate as int),
        MIN_WINDOW <= r <= MAX_WINDOW,
        nearest_window(sample_rate as int, r as int),
{
    proof {
        lemma_window_is_nearest_power_of_two(sample_rate as int);
        vstd::arithmetic::power2::lemma2_to64();
        vstd::arithmetic::power2::lemma2_to64_rest();
    }
    let r128 = sample_rate as u128;
    assert(r128 * r128 <= 0xFFFF_FFFFu128 * 0xFFFF_FFFFu128) by (nonlinear_arith)
        requires
            r128 <= 0xFFFF_FFFF,
    ;
    let sq: u128 = r128 * r128;
    let scaled: u128 = sq * 182329u128;
    proof {
        assert(scaled as int == ideal_window_sq_scaled(sample_rate as int)) by (nonlinear_arith)
            requires
                sq as int == (sample_rate as int) * (sample_rate as int),
                scaled as int == sq * 182329,
        ;
    }
    if scaled >= 33554432u128 * 100000000u128 {
        MAX_WINDOW
    } else if scaled >= 8388608u128 * 100000000u128 {
        4096
    } else if scaled >= 2097152u128 * 100000000u128 {
        2048
    } else if scaled >= 524288u128 * 100000000u128 {
        1024
    } else {
        MIN_WINDOW
    }
}

/// Sample count `p` (since the stream began) is an analysis instant: the
/// first full window ends at `window`, then one every `hop` samples.
pub open spec fn is_emit_point(window: int, hop: int, p: int) -> bool {
    p >= window && (p - window) % hop == 0
}

/// The analysis windows that complete after sample `lo` and up to sample
/// `hi` of `stream`, in time order: each instant with the `window` samples
/// that end there.
pub open spec fn frames<S>(stream: Seq<S>, window: int, hop: int, lo: int, hi: int) -> Seq<(int, Seq<S>)>
    decreases hi - lo,
{
    if hi <= lo {
        Seq::empty()
    } else {
        let before = frames(stream, window, hop, lo, hi - 1);
        if is_emit_point(window, hop, hi) {
            before.push((hi, stream.subrange(hi - window, hi)))
        } else {
            before
        }
    }
}

/// One completed analysis window: the number of samples fed (since
/// construction or reset) when it completed, and its samples, oldest first.
#[derive(Debug, Clone, PartialEq)]
pub struct Frame<S> {
    pub samples_seen: u64,
    pub samples: Vec<S>,
}

impl<S> Frame<S> {
    /// The frame as an (instant, window contents) pair.
    pub open spec fn as_pair(self) -> (int, Seq<S>) {
        (self.samples_seen as int, self.samples@)
    }
}


/// `x % d` is `r` whenever `x` is `q` whole `d`s plus `r`, with `0 <= r < d`.
proof fn lemma_mod_is(x: int, d: int, q: int, r: int)
    requires
        d > 0,
        0 <= r < d,
        x == q * d + r,
    ensures
        x % d == r,
        x / d == q,
{
    vstd::arithmetic::div_mod::lemma_fundamental_div_mod_converse(x, d, q, r);
}

/// Stepping one sample forward advances the ring position by one, wrapping
/// at the window length.
proof fn lemma_mod_succ(x: int, d: int)
    requires
        d > 0,
        x >= 0,
    ensures
        (x + 1) % d == (if x % d + 1 == d { 0 } else { x % d + 1 }),
        x % d == (x - d) % d,
{
    vstd::arithmetic::div_mod::lemma_fundamental_div_mod(x, d);
    let q = x / d;
    let r = x % d;
    assert(x == q * d + r) by (nonlinear_arith)
        requires
            x == d * q + r,
    ;
    if r + 1 == d {
        assert(x + 1 == (q + 1) * d + 0) by (nonlinear_arith)
            requires
                x == q * d + r,
                r + 1 == d,
        ;
        lemma_mod_is(x + 1, d, q + 1, 0);
    } else {
        lemma_mod_is(x + 1, d, q, r + 1);
    }
    assert(x - d == (q - 1) * d + r) by (nonlinear_arith)
        requires
            x == q * d + r,
    ;
    lemma_mod_is(x - d, d, q - 1, r);
}

/// Positions less than a window apart sit in different ring slots, and the
/// slot of `x - d + t` is `t` slots after the slot of `x`, wrapping.
proof fn lemma_ring_slots(x: int, d: int, t: int)
    requires
        d > 0,
        x >= d,
        0 <= t < d,
    ensures
        (x - d + t) % d == (if x % d + t >= d { x % d + t - d } else { x % d + t }),
        0 < t ==> (x - t) % d != x % d,
{
    vstd::arithmetic::div_mod::lemma_fundamental_div_mod(x, d);
    let q = x / d;
    let r = x % d;
    assert(x == q * d + r) by (nonlinear_arith)
        requires
            x == d * q + r,
    ;
    if r + t >= d {
        assert(x - d + t == q * d + (r + t - d)) by (nonlinear_arith)
            requires
                x == q * d + r,
        ;
        lemma_mod_is(x - d + t, d, q, r + t - d);
    } else {
        assert(x - d + t == (q - 1) * d + (r + t)) by (nonlinear_arith)
            requires
                x == q * d + r,
        ;
        lemma_mod_is(x - d + t, d, q - 1, r + t);
    }
    if 0 < t {
        if r - t >= 0 {
            assert(x - t == q * d + (r - t)) by (nonlinear_arith)
                requires
                    x == q * d + r,
            ;
            lemma_mod_is(x - t, d, q, r - t);
        } else {
            assert(x - t == (q - 1) * d + (r - t + d)) by (nonlinear_arith)
                requires
                    x == q * d + r,
            ;
            lemma_mod_is(x - t, d, q - 1, r - t + d);
        }
    }
}

/// After an analysis instant the next one is a hop later, with none between.
proof fn lemma_next_instant(w: int, h: int, p: int)
    requires
        h > 0,
        is_emit_point(w, h, p),
    ensures
        is_emit_point(w, h, p + h),
        forall|q: int| p < q < p + h ==> !#[trigger] is_emit_point(w, h, q),
{
    vstd::arithmetic::div_mod::lemma_fundamental_div_mod(p - w, h);
    let m = (p - w) / h;
    assert(p - w == m * h + 0) by (nonlinear_arith)
        requires
            p - w == h * m + (p - w) % h,
            (p - w) % h == 0,
    ;
    assert(p + h - w == (m + 1) * h + 0) by (nonlinear_arith)
        requires
            p - w == m * h + 0,
    ;
    lemma_mod_is(p + h - w, h, m + 1, 0);
    assert forall|q: int| p < q < p + h implies !#[trigger] is_emit_point(w, h, q) by {
        lemma_mod_is(q - w, h, m, q - p);
    }
}

/// The first instant: the `window`-th sample, and no earlier one.
proof fn lemma_first_instant(w: int, h: int)
    requires
        h > 0,
        w > 0,
    ensures
        is_emit_point(w, h, w),
        forall|q: int| 0 < q < w ==> !#[trigger] is_emit_point(w, h, q),
        0int % w == 0,
{
    lemma_mod_is(0, h, 0, 0);
    lemma_mod_is(0, w, 0, 0);
}

/// Streaming window scheduler with a ring buffer of the latest samples.
pub struct Tracker<S> {
    sample_rate: u32,
    window: usize,
    hop: usize,
    /// The most recent `window` samples; grows to `window` during startup.
    ring: Vec<S>,
    /// Next write position in `ring`; once full, also the oldest sample.
    write: usize,
    /// How much of the window holds real samples.
    filled: usize,
    samples_seen: u64,
    next_emit: u64,
    /// Every sample fed since construction or the last reset.
    stream: Ghost<Seq<S>>,
}

impl<S: Copy> Tracker<S> {
    /// Samples fed since construction or the last reset.
    pub closed spec fn fed(&self) -> Seq<S> {
        self.stream@
    }

    /// Analysis window length, in samples.
    pub closed spec fn window_len(&self) -> int {
        self.window as int
    }

    /// Distance between successive analysis instants, in samples.
    pub closed spec fn hop_len(&self) -> int {
        self.hop as int
    }

    /// Capture rate the tracker was built for.
    pub closed spec fn rate(&self) -> int {
        self.sample_rate as int
    }

    /// The ring holds the latest samples at their stream positions modulo
    /// the window, and the schedule points at the next analysis instant.
    pub closed spec fn wf(&self) -> bool {
        let len = self.stream@.len() as int;
        let w = self.window as int;
        let h = self.hop as int;
        &&& self.ring_holds_latest()
        &&& w == window_len_for(self.sample_rate as int)
        &&& h == w / 4
        &&& 1 <= h <= w
        &&& self.next_emit as int > len
        &&& is_emit_point(w, h, self.next_emit as int)
        &&& forall|q: int| len < q < self.next_emit ==> !#[trigger] is_emit_point(w, h, q)
    }

    /// The ring holds the latest `min(len, window)` samples, each at its
    /// stream position modulo the window.
    closed spec fn ring_holds_latest(&self) -> bool {
        let len = self.stream@.len() as int;
        let w = self.window as int;
        &&& 512 <= w <= 8192
        &&& self.samples_seen as int == len
        &&& self.filled as int == (if len < w { len } else { w })
        &&& self.ring@.len() == self.filled
        &&& self.write as int == len % w
        &&& forall|j: int|
            len - self.filled <= j < len ==> #[trigger] self.ring@[j % w] == self.stream@[j]
    }

    /// Builds a tracker for a capture rate in Hz: the window from
    /// [`window_for`], the hop a quarter of it (75% overlap).
    pub fn new(sample_rate: u32) -> (r: Tracker<S>)
        ensures
            r.wf(),
            r.fed() == Seq::<S>::empty(),
            r.rate() == sample_rate,
            r.window_len() == window_len_for(sample_rate as int),
            r.hop_len() == window_len_for(sample_rate as int) / 4,
    {
        let window = window_for(sample_rate);
        let hop = window / 4;
        proof {
            lemma_first_instant(window as int, hop as int);
        }
        Tracker {
            sample_rate,
            window,
            hop,
            ring: Vec::new(),
            write: 0,
            filled: 0,
            samples_seen: 0,
            next_emit: window as u64,
            stream: Ghost(Seq::empty()),
        }
    }

    /// Capture rate this tracker was built for, in Hz.
    pub fn sample_rate(&self) -> (r: u32)
        ensures
            r == self.rate(),
    {
        self.sample_rate
    }

    /// Analysis window length in samples.
    pub fn window_samples(&self) -> (r: usize)
        ensures
            r == self.window_len(),
    {
        self.window
    }

    /// Distance between successive analysis windows, in samples.
    pub fn hop_samples(&self) -> (r: usize)
        ensures
            r == self.hop_len(),
    {
        self.hop
    }

    /// Drops all buffered audio and restarts the clock: the next window is
    /// counted from the next sample fed. Afterwards the tracker is what
    /// [`Tracker::new`] builds for the same rate (the same ensures), so it
    /// hands out exactly the windows a fresh tracker would.
    pub fn reset(&mut self)
        requires
            old(self).wf(),
        ensures
            final(self).wf(),
            final(self).fed() == Seq::<S>::empty(),
            final(self).rate() == old(self).rate(),
            final(self).window_len() == window_len_for(old(self).rate()),
            final(self).hop_len() == window_len_for(old(self).rate()) / 4,
            final(self).window_len() == old(self).window_len(),
            final(self).hop_len() == old(self).hop_len(),
    {
        proof {
            lemma_first_instant(self.window as int, self.hop as int);
        }
        self.ring.clear();
        self.write = 0;
        self.filled = 0;
        self.samples_seen = 0;
        self.next_emit = self.window as u64;
        self.stream = Ghost(Seq::empty());
    }

    /// Consumes a block of samples and returns the analysis windows that
    /// completed inside it, in time order: none when the block ends before
    /// the next instant, several when it spans more than a hop.
    pub fn feed(&mut self, samples: &[S]) -> (r: Vec<Frame<S>>)
        requires
            old(self).wf(),
            old(self).fed().len() + samples@.len() + 8192 <= u64::MAX,
        ensures
            final(self).wf(),
            final(self).fed() == old(self).fed() + samples@,
            final(self).rate() == old(self).rate(),
            final(self).window_len() == old(self).window_len(),
            final(self).hop_len() == old(self).hop_len(),
            r@.map_values(|f: Frame<S>| f.as_pair()) == frames(
                final(self).fed(),
                old(self).window_len(),
                old(self).hop_len(),
                old(self).fed().len() as int,
                final(self).fed().len() as int,
            ),
    {
        let ghost start = self.stream@.len() as int;
        let ghost full = self.stream@ + samples@;
        let ghost w = self.window as int;
        let ghost h = self.hop as int;
        let mut out: Vec<Frame<S>> = Vec::new();
        let mut k: usize = 0;
        assert(full.take(start) =~= self.stream@);
        while k < samples.len()
            invariant
                self.wf(),
                0 <= k <= samples@.len(),
                w == self.window as int,
                h == self.hop as int,
                self.sample_rate == old(self).sample_rate,
                start + samples@.len() + 8192 <= u64::MAX,
                full == old(self).stream@ + samples@,
                start == old(self).stream@.len(),
                self.stream@ == full.take(start + k),
                out@.map_values(|f: Frame<S>| f.as_pair()) == frames(full, w, h, start, start + k),
            decreases samples@.len() - k,
        {
            let sample = samples[k];
            let ghost len = self.stream@.len() as int;
            proof {
                assert(full.take(start + k + 1) =~= self.stream@.push(sample));
            }
            if self.ring.len() < self.window {
                self.ring.push(sample);
            } else {
                self.ring.set(self.write, sample);
            }
            self.write = if self.write + 1 == self.window {
                0
            } else {
                self.write + 1
            };
            if self.filled < self.window {
                self.filled = self.filled + 1;
            }
            self.samples_seen = self.samples_seen + 1;
            self.stream = Ghost(self.stream@.push(sample));
            proof {
                let nl = len + 1;
                lemma_mod_succ(len, w);
                if len < w {
                    lemma_mod_is(len, w, 0, len);
                }
                assert forall|j: int| nl - self.filled <= j < nl implies #[trigger] self.ring@[j % w]
                    == self.stream@[j] by {
                    if j != len {
                        if len >= w {
                            lemma_ring_slots(len, w, len - j);
                        } else {
                            lemma_mod_is(j, w, 0, j);
                        }
                    }
                }
            }
            let ghost before = out@.map_values(|f: Frame<S>| f.as_pair());
            if self.filled == self.window && self.samples_seen >= self.next_emit {
                let frame = self.window_frame();
                proof {
                    assert(frame.samples@ =~= full.subrange(start + k + 1 - w, start + k + 1));
                }
                out.push(frame);
                proof {
                    let p = self.samples_seen as int;
                    lemma_next_instant(w, h, p);
                    assert(out@.map_values(|f: Frame<S>| f.as_pair()) =~= before.push(
                        (p, full.subrange(p - w, p)),
                    ));
                }
                self.next_emit = self.samples_seen + self.hop as u64;
            } else {
                proof {
                    let p = self.samples_seen as int;
                    if is_emit_point(w, h, p) {
                        assert(p >= w);
                        assert(p == self.next_emit);
                    }
                    assert(out@.map_values(|f: Frame<S>| f.as_pair()) =~= before);
                }
            }
            k = k + 1;
        }
        proof {
            assert(full.take(start + samples@.len()) =~= full);
        }
        out
    }

    /// The full window ending at the latest sample, oldest sample first.
    fn window_frame(&self) -> (r: Frame<S>)
        requires
            self.ring_holds_latest(),
            self.filled == self.window,
        ensures
            r.samples_seen == self.samples_seen,
            r.samples@ =~= self.stream@.subrange(
                self.stream@.len() - self.window as int,
                self.stream@.len() as int,
            ),
    {
        let ghost len = self.stream@.len() as int;
        let ghost w = self.window as int;
        let oldest = self.write;
        let mut samples: Vec<S> = Vec::new();
        let mut i: usize = 0;
        while i < self.window
            invariant
                self.ring_holds_latest(),
                self.filled == self.window,
                oldest == self.write,
                len == self.stream@.len(),
                w == self.window as int,
                0 <= i <= w,
                samples@.len() == i,
                forall|t: int| 0 <= t < i ==> #[trigger] samples@[t] == self.stream@[len - w + t],
            decreases w - i,
        {
            let idx = if oldest + i >= self.window {
                oldest + i - self.window
            } else {
                oldest + i
            };
            proof {
                let j = len - w + i;
                lemma_ring_slots(len, w, i as int);
                assert(self.ring@[j % w] == self.stream@[j]);
            }
            samples.push(self.ring[idx]);
            i = i + 1;
        }
        Frame { samples_seen: self.samples_seen, samples }
    }
}

/// Feeding a stream in two blocks yields exactly the windows of feeding it
/// whole: the windows completing up to `mid` followed by those completing
/// after it are the windows completing up to `hi`.
pub proof fn lemma_frames_split<S>(stream: Seq<S>, window: int, hop: int, lo: int, mid: int, hi: int)
    requires
        lo <= mid <= hi,
    ensures
        frames(stream, window, hop, lo, mid) + frames(stream, window, hop, mid, hi) == frames(
            stream,
            window,
            hop,
            lo,
            hi,
        ),
    decreases hi - mid,
{
    if hi == mid {
        assert(frames(stream, window, hop, lo, mid) + frames(stream, window, hop, mid, hi)
            =~= frames(stream, window, hop, lo, mid));
    } else {
        lemma_frames_split(stream, window, hop, lo, mid, hi - 1);
        let a = frames(stream, window, hop, lo, mid);
        let b = frames(stream, window, hop, mid, hi - 1);
        if is_emit_point(window, hop, hi) {
            assert(a + b.push((hi, stream.subrange(hi - window, hi))) =~= (a + b).push(
                (hi, stream.subrange(hi - window, hi)),
            ));
        }
    }
}

/// The windows completing up to `hi` depend only on the first `hi` samples:
/// samples fed later never change a window already handed out.
pub proof fn lemma_frames_prefix<S>(stream: Seq<S>, more: Seq<S>, window: int, hop: int, lo: int, hi: int)
    requires
        window >= 0,
        hi <= stream.len(),
    ensures
        frames(stream, window, hop, lo, hi) == frames(stream + more, window, hop, lo, hi),
    decreases hi - lo,
{
    if hi > lo {
        lemma_frames_prefix(stream, more, window, hop, lo, hi - 1);
        if is_emit_point(window, hop, hi) {
            assert(stream.subrange(hi - window, hi) =~= (stream + more).subrange(hi - window, hi));
        }
    }
}

/// The block size does not change the windows: feeding `a` then `b` to a
/// fresh tracker yields the same windows, in the same order, as feeding
/// `a + b` at once.
pub proof fn lemma_block_size_independent<S>(a: Seq<S>, b: Seq<S>, window: int, hop: int)
    requires
        window >= 0,
    ensures
        frames(a, window, hop, 0, a.len() as int) + frames(a + b, window, hop, a.len() as int, (a
            + b).len() as int) == frames(a + b, window, hop, 0, (a + b).len() as int),
{
    lemma_frames_prefix(a, b, window, hop, 0, a.len() as int);
    lemma_frames_split(a + b, window, hop, 0, a.len() as int, (a + b).len() as int);
}

/// The blocks laid end to end: the stream a tracker has been fed after
/// taking `blocks` in order.
pub open spec fn joined_blocks<S>(blocks: Seq<Seq<S>>) -> Seq<S>
    decreases blocks.len(),
{
    if blocks.len() == 0 {
        Seq::empty()
    } else {
        joined_blocks(blocks.drop_last()) + blocks.last()
    }
}

/// What a fresh tracker hands out, feed after feed, when fed `blocks` in
/// order: each feed's windows, laid end to end.
pub open spec fn frames_by_block<S>(blocks: Seq<Seq<S>>, window: int, hop: int) -> Seq<(int, Seq<S>)>
    decreases blocks.len(),
{
    if blocks.len() == 0 {
        Seq::empty()
    } else {
        frames_by_block(blocks.drop_last(), window, hop) + frames(
            joined_blocks(blocks),
            window,
            hop,
            joined_blocks(blocks.drop_last()).len() as int,
            joined_blocks(blocks).len() as int,
        )
    }
}

/// However a stream is cut into blocks, a fresh tracker fed those blocks in
/// order hands out exactly the windows of feeding the whole stream at once.
pub proof fn lemma_any_blocking_gives_the_same_windows<S>(blocks: Seq<Seq<S>>, window: int, hop: int)
    requires
        window >= 0,
    ensures
        frames_by_block(blocks, window, hop) == frames(
            joined_blocks(blocks),
            window,
            hop,
            0,
            joined_blocks(blocks).len() as int,
        ),
    decreases blocks.len(),
{
    if blocks.len() == 0 {
        assert(frames(joined_blocks(blocks), window, hop, 0, 0) =~= Seq::<(int, Seq<S>)>::empty());
    } else {
        let before = blocks.drop_last();
        lemma_any_blocking_gives_the_same_windows(before, window, hop);
        lemma_block_size_independent(joined_blocks(before), blocks.last(), window, hop);
    }
}

/// From a fresh start, after `n` samples no window has completed while
/// `n` is short of one window, and `(n - window) / hop + 1` have once it is
/// not; the `j`-th completed at sample `window + j * hop`.
pub proof fn lemma_frame_count<S>(stream: Seq<S>, window: int, hop: int, n: int)
    requires
        window >= 1,
        hop >= 1,
        n >= 0,
    ensures
        frames(stream, window, hop, 0, n).len() == (if n < window {
            0
        } else {
            (n - window) / hop + 1
        }),
        forall|j: int|
            0 <= j < frames(stream, window, hop, 0, n).len() ==> #[trigger] frames(
                stream,
                window,
                hop,
                0,
                n,
            )[j].0 == window + j * hop,
    decreases n,
{
    if n > 0 {
        lemma_frame_count(stream, window, hop, n - 1);
        lemma_first_window_and_cadence(window, hop, n);
        let prev = frames(stream, window, hop, 0, n - 1);
        let cur = frames(stream, window, hop, 0, n);
        if n == window {
            lemma_mod_is(0, hop, 0, 0);
        } else if n > window {
            let x = n - window;
            vstd::arithmetic::div_mod::lemma_fundamental_div_mod(x - 1, hop);
            let q = (x - 1) / hop;
            let r = (x - 1) % hop;
            assert(x - 1 == q * hop + r) by (nonlinear_arith)
                requires
                    x - 1 == hop * q + r,
            ;
            if r + 1 == hop {
                assert(x == (q + 1) * hop + 0) by (nonlinear_arith)
                    requires
                        x - 1 == q * hop + r,
                        r + 1 == hop,
                ;
                lemma_mod_is(x, hop, q + 1, 0);
                assert(n == window + (q + 1) * hop);
            } else {
                lemma_mod_is(x, hop, q, r + 1);
            }
        }
        assert forall|j: int| 0 <= j < cur.len() implies #[trigger] cur[j].0 == window + j * hop by {
            if j < prev.len() {
                assert(cur[j] == prev[j]);
            }
        }
    }
}

/// Until a full window has arrived nothing is analysed; the first window
/// completes exactly when the `window`-th sample arrives, and later ones
/// every `hop` samples.
pub proof fn lemma_first_window_and_cadence(window: int, hop: int, p: int)
    requires
        window >= 1,
        hop >= 1,
    ensures
        p < window ==> !is_emit_point(window, hop, p),
        is_emit_point(window, hop, window),
        is_emit_point(window, hop, p) ==> is_emit_point(window, hop, p + hop),
        is_emit_point(window, hop, p) ==> forall|q: int|
            p < q < p + hop ==> !#[trigger] is_emit_point(window, hop, q),
{
    lemma_first_instant(window, hop);
    if is_emit_point(window, hop, p) {
        lemma_next_instant(window, hop, p);
    }
}

} // verus!
