//! Capture side: the sample ring, 100 ms chunking, chunk energy, and the
//! choice of device and stream configuration.

use vstd::prelude::*;

use crate::text;

verus! {

/// 10 seconds of 16 kHz mono. The ring never grows beyond it.
pub const RING_CAP: usize = 160_000;

/// 100 ms of 16 kHz mono: one message to the server.
pub const CHUNK: usize = 1_600;

/// The sample rate that the server expects.
pub const TARGET_RATE: u32 = 16_000;

// ---------------------------------------------------------------------------
// Levels
// ---------------------------------------------------------------------------
/// The RMS level of a chunk, as the bit pattern of an IEEE 754 single.
///
/// A level is a non-negative finite number, and among those the bit patterns
/// are ordered as the numbers are, so that levels compare as integers.
#[derive(Debug, Clone, Copy, PartialEq, Eq, Structural)]
pub struct Level {
    pub bits: u32,
}

/// 0.0: bit-exact digital silence.
pub const LEVEL_ZERO: u32 = 0;

/// 120.0: chunks below it are not sent.
pub const LEVEL_SILENCE: u32 = 0x42F0_0000;

/// 200.0: the idle meter moves above it.
pub const LEVEL_METER: u32 = 0x4348_0000;

impl Level {
    /// The level of digital silence.
    pub fn zero() -> (r: Level)
        ensures
            r.bits == LEVEL_ZERO,
    {
        Level { bits: LEVEL_ZERO }
    }

    /// Exactly 0.0: no live microphone is that quiet.
    pub fn is_zero(&self) -> (r: bool)
        ensures
            r == (self.bits == LEVEL_ZERO),
    {
        self.bits == LEVEL_ZERO
    }

    /// Loud enough to be sent.
    pub fn is_audible(&self) -> (r: bool)
        ensures
            r == (self.bits >= LEVEL_SILENCE),
    {
        self.bits >= LEVEL_SILENCE
    }

    /// Loud enough to move the idle meter.
    pub fn moves_meter(&self) -> (r: bool)
        ensures
            r == (self.bits > LEVEL_METER),
    {
        self.bits > LEVEL_METER
    }
}

/// The sum of the squares of the samples.
pub open spec fn square_sum(s: Seq<i16>) -> int
    decreases s.len(),
{
    if s.len() == 0 {
        0
    } else {
        square_sum(s.drop_last()) + s.last() * s.last()
    }
}

proof fn lemma_square(x: i16)
    ensures
        0 <= x * x <= 0x4000_0000,
        x != 0 ==> x * x >= 1,
{
    assert(0 <= x * x <= 0x4000_0000) by (nonlinear_arith)
        requires
            -32768 <= x <= 32767,
    ;
    assert(x != 0 ==> x * x >= 1) by (nonlinear_arith);
}

proof fn lemma_square_sum_bounds(s: Seq<i16>)
    ensures
        0 <= square_sum(s) <= s.len() * 0x4000_0000,
    decreases s.len(),
{
    if s.len() > 0 {
        lemma_square_sum_bounds(s.drop_last());
        lemma_square(s.last());
    }
}

/// The energy of a chunk: the sum of the squares of its samples, exactly. Its
/// RMS level is the square root of this over the number of samples.
pub fn energy(chunk: &[i16]) -> (e: u64)
    requires
        chunk@.len() <= u32::MAX,
    ensures
        e == square_sum(chunk@),
{
    let mut acc: u64 = 0;
    let mut i: usize = 0;
    while i < chunk.len()
        invariant
            i <= chunk@.len() <= u32::MAX,
            acc == square_sum(chunk@.take(i as int)),
        decreases chunk@.len() - i,
    {
        let v: i64 = chunk[i] as i64;
        proof {
            assert(chunk@.take(i + 1).drop_last() =~= chunk@.take(i as int));
            lemma_square_sum_bounds(chunk@.take(i as int));
            lemma_square(chunk@[i as int]);
        }
        acc = acc + (v * v) as u64;
        i = i + 1;
    }
    assert(chunk@.take(i as int) =~= chunk@);
    acc
}

/// A chunk has zero energy exactly when every sample of it is zero.
pub proof fn law_zero_energy_is_digital_silence(s: Seq<i16>)
    ensures
        square_sum(s) == 0 <==> (forall|i: int| 0 <= i < s.len() ==> s[i] == 0),
    decreases s.len(),
{
    if s.len() > 0 {
        let t = s.drop_last();
        law_zero_energy_is_digital_silence(t);
        lemma_square_sum_bounds(t);
        lemma_square(s.last());
        if square_sum(s) == 0 {
            assert forall|i: int| 0 <= i < s.len() implies s[i] == 0 by {
                if i < t.len() {
                    assert(t[i] == s[i]);
                }
            }
        }
        if forall|i: int| 0 <= i < s.len() ==> s[i] == 0 {
            assert forall|i: int| 0 <= i < t.len() implies t[i] == 0 by {
                assert(s[i] == 0);
            }
            assert(s[s.len() - 1] == 0);
        }
    }
}

// ---------------------------------------------------------------------------
// The ring
// ---------------------------------------------------------------------------
/// The newest `RING_CAP` samples of `s`, or all of it.
pub open spec fn newest(s: Seq<i16>) -> Seq<i16> {
    if s.len() > RING_CAP {
        s.skip(s.len() - RING_CAP)
    } else {
        s
    }
}

/// A fixed ring of samples that overwrites the oldest when full: dictation
/// cares about the last 10 seconds, not the first. Its view is what it holds,
/// oldest first.
pub struct Ring {
    buf: Vec<i16>,
    write: usize,
    len: usize,
}

impl View for Ring {
    type V = Seq<i16>;

    closed spec fn view(&self) -> Seq<i16> {
        Seq::new(
            self.len as nat,
            |i: int| self.buf@[(self.write + RING_CAP - self.len + i) % (RING_CAP as int)],
        )
    }
}

impl Ring {
    pub closed spec fn wf(&self) -> bool {
        &&& self.buf@.len() == RING_CAP
        &&& self.write < RING_CAP
        &&& self.len <= RING_CAP
    }

    /// The ring never holds more than `RING_CAP` samples.
    pub proof fn law_bounded(&self)
        requires
            self.wf(),
        ensures
            self@.len() <= RING_CAP,
    {
    }

    /// An empty ring. All memory that it will ever use is allocated here.
    pub fn new() -> (r: Ring)
        ensures
            r.wf(),
            r@ == Seq::<i16>::empty(),
    {
        let r = Ring { buf: vec![0i16; RING_CAP], write: 0, len: 0 };
        assert(r@ =~= Seq::<i16>::empty());
        r
    }

    /// Appends one sample; the oldest gives way when the ring is full.
    pub fn push(&mut self, s: i16)
        requires
            old(self).wf(),
        ensures
            final(self).wf(),
            final(self)@ == newest(old(self)@.push(s)),
    {
        self.buf[self.write] = s;
        self.write = (self.write + 1) % RING_CAP;
        if self.len < RING_CAP {
            self.len = self.len + 1;
        }
        assert(self@ =~= newest(old(self)@.push(s)));
    }

    /// Appends samples in order.
    pub fn push_slice(&mut self, xs: &[i16])
        requires
            old(self).wf(),
        ensures
            final(self).wf(),
            final(self)@ == newest(old(self)@ + xs@),
    {
        let mut i: usize = 0;
        assert(self@ =~= newest(old(self)@ + xs@.take(0)));
        while i < xs.len()
            invariant
                self.wf(),
                i <= xs@.len(),
                self@ == newest(old(self)@ + xs@.take(i as int)),
            decreases xs@.len() - i,
        {
            let ghost before = self@;
            self.push(xs[i]);
            i = i + 1;
            assert(self@ =~= newest(old(self)@ + xs@.take(i as int)));
        }
        assert(xs@.take(i as int) =~= xs@);
    }

    /// Moves up to `out.len()` of the oldest samples into the front of `out`
    /// and returns how many; the rest of `out` is left alone.
    pub fn drain(&mut self, out: &mut [i16]) -> (n: usize)
        requires
            old(self).wf(),
        ensures
            final(self).wf(),
            n == (if old(out)@.len() <= old(self)@.len() {
                old(out)@.len()
            } else {
                old(self)@.len()
            }),
            final(out)@ == old(self)@.take(n as int) + old(out)@.skip(n as int),
            final(self)@ == old(self)@.skip(n as int),
    {
        let n: usize = if out.len() <= self.len {
            out.len()
        } else {
            self.len
        };
        let start: usize = (self.write + RING_CAP - self.len) % RING_CAP;
        let first: usize = if RING_CAP - start <= n {
            RING_CAP - start
        } else {
            n
        };
        let ghost held = self@;
        let mut i: usize = 0;
        while i < first
            invariant
                self == old(self),
                self.wf(),
                held == self@,
                n <= held.len(),
                n <= out@.len(),
                out@.len() == old(out)@.len(),
                start == (self.write + RING_CAP - self.len) % (RING_CAP as int),
                first <= n,
                start + first <= RING_CAP,
                i <= first,
                out@ == held.take(i as int) + old(out)@.skip(i as int),
            decreases first - i,
        {
            out[i] = self.buf[start + i];
            assert(held[i as int] == self.buf@[start + i]);
            i = i + 1;
            assert(out@ =~= held.take(i as int) + old(out)@.skip(i as int));
        }
        let mut j: usize = first;
        while j < n
            invariant
                self == old(self),
                self.wf(),
                held == self@,
                n <= held.len(),
                n <= out@.len(),
                out@.len() == old(out)@.len(),
                start == (self.write + RING_CAP - self.len) % (RING_CAP as int),
                first <= j <= n,
                first < n ==> start + first == RING_CAP,
                out@ == held.take(j as int) + old(out)@.skip(j as int),
            decreases n - j,
        {
            out[j] = self.buf[j - first];
            assert(held[j as int] == self.buf@[j - first]);
            j = j + 1;
            assert(out@ =~= held.take(j as int) + old(out)@.skip(j as int));
        }
        self.len = self.len - n;
        assert(self@ =~= old(self)@.skip(n as int));
        n
    }

    /// Forgets everything held.
    pub fn clear(&mut self)
        requires
            old(self).wf(),
        ensures
            final(self).wf(),
            final(self)@ == Seq::<i16>::empty(),
    {
        self.len = 0;
        assert(self@ =~= Seq::<i16>::empty());
    }

    /// How many samples are held.
    pub fn len(&self) -> (n: usize)
        requires
            self.wf(),
        ensures
            n == self@.len(),
    {
        self.len
    }
}

/// Pushing in pieces is pushing all at once.
pub proof fn law_pushes_compose(held: Seq<i16>, a: Seq<i16>, b: Seq<i16>)
    ensures
        newest(newest(held + a) + b) == newest(held + a + b),
{
    assert(newest(newest(held + a) + b) =~= newest(held + a + b));
}

/// When more than `RING_CAP` samples were pushed, the oldest are the ones
/// lost: what survives is exactly the newest `RING_CAP`, in order.
pub proof fn law_overwrites_oldest(s: Seq<i16>, i: int)
    requires
        s.len() > RING_CAP,
        0 <= i < RING_CAP,
    ensures
        newest(s).len() == RING_CAP,
        newest(s)[i] == s[s.len() - RING_CAP + i],
{
}

/// First in, first out: draining `m` and then `n` samples of a ring that
/// holds `held` hands out the same samples as draining `m + n` at once, and
/// leaves the same behind.
pub proof fn law_drains_compose(held: Seq<i16>, m: int, n: int)
    requires
        0 <= m,
        0 <= n,
        m + n <= held.len(),
    ensures
        held.take(m) + held.skip(m).take(n) == held.take(m + n),
        held.skip(m).skip(n) == held.skip(m + n),
{
    assert(held.take(m) + held.skip(m).take(n) =~= held.take(m + n));
    assert(held.skip(m).skip(n) =~= held.skip(m + n));
}

// ---------------------------------------------------------------------------
// Chunking
// ---------------------------------------------------------------------------
/// The length of the part of `n` samples that fills whole chunks.
pub open spec fn whole_chunks(n: int) -> int {
    n / (CHUNK as int) * CHUNK
}

/// The hand-over point between the audio callback and the session: whole
/// chunks in the ring, with one ready signal for each of them. Its view is
/// the buffered samples, oldest first.
pub struct Capture {
    ring: Ring,
    ready: usize,
}

impl View for Capture {
    type V = Seq<i16>;

    closed spec fn view(&self) -> Seq<i16> {
        self.ring@
    }
}

impl Capture {
    pub closed spec fn wf(&self) -> bool {
        &&& self.ring.wf()
        &&& self.ready * CHUNK == self.ring@.len()
    }

    /// The number of ready signals that wait to be taken.
    pub closed spec fn signals(&self) -> nat {
        self.ready as nat
    }

    /// Ready signals stay one to one with the buffered chunks, so there are
    /// never more than the ring has room for.
    pub proof fn law_signals_match_chunks(&self)
        requires
            self.wf(),
        ensures
            self.signals() * CHUNK == self@.len(),
            self@.len() <= RING_CAP,
            self.signals() <= RING_CAP / CHUNK,
    {
        self.ring.law_bounded();
    }

    /// Nothing buffered, nothing signalled.
    pub fn new() -> (c: Capture)
        ensures
            c.wf(),
            c@ == Seq::<i16>::empty(),
            c.signals() == 0,
    {
        Capture { ring: Ring::new(), ready: 0 }
    }

    /// Moves every whole chunk from the front of `out` into the ring, with one
    /// ready signal each, and returns how many there were. A partial chunk
    /// stays in `out`.
    pub fn flush_out(&mut self, out: &mut Vec<i16>) -> (n: usize)
        requires
            old(self).wf(),
        ensures
            final(self).wf(),
            n == old(out)@.len() / (CHUNK as nat),
            final(self).signals() == (if old(self).signals() + n <= RING_CAP / CHUNK {
                old(self).signals() + n
            } else {
                (RING_CAP / CHUNK) as int
            }),
            final(out)@ == old(out)@.skip(whole_chunks(old(out)@.len() as int)),
            final(self)@ == newest(
                old(self)@ + old(out)@.take(whole_chunks(old(out)@.len() as int)),
            ),
    {
        let n: usize = out.len() / CHUNK;
        let used: usize = n * CHUNK;
        proof {
            self.ring.law_bounded();
        }
        self.ring.push_slice(&out.as_slice()[0..used]);
        assert(out@.subrange(0, used as int) =~= out@.take(used as int));
        let room: usize = RING_CAP / CHUNK;
        self.ready = if n >= room - self.ready {
            room
        } else {
            self.ready + n
        };
        let rest = out.split_off(used);
        *out = rest;
        assert(out@ =~= old(out)@.skip(used as int));
        n
    }

    /// Takes the oldest chunk, with its energy, if a whole one is buffered.
    /// Otherwise nothing is consumed.
    pub fn take_chunk(&mut self) -> (r: Option<([i16; CHUNK], u64)>)
        requires
            old(self).wf(),
        ensures
            final(self).wf(),
            r is Some <==> old(self)@.len() >= CHUNK,
            match r {
                None => *final(self) == *old(self),
                Some(taken) => {
                    &&& taken.0@ == old(self)@.take(CHUNK as int)
                    &&& taken.1 == square_sum(taken.0@)
                    &&& final(self)@ == old(self)@.skip(CHUNK as int)
                    &&& final(self).signals() + 1 == old(self).signals()
                },
            },
    {
        if self.ring.len() < CHUNK {
            return None;
        }
        if self.ready == 0 {
            return None;
        }
        let mut chunk: [i16; CHUNK] = [0i16; 1_600];
        self.ring.drain(&mut chunk);
        self.ready = self.ready - 1;
        assert(chunk@ =~= old(self)@.take(CHUNK as int));
        let e: u64 = energy(&chunk);
        Some((chunk, e))
    }

    /// Drops everything buffered and every signal: a fresh utterance must not
    /// start with old audio.
    pub fn clear(&mut self)
        requires
            old(self).wf(),
        ensures
            final(self).wf(),
            final(self)@ == Seq::<i16>::empty(),
            final(self).signals() == 0,
    {
        self.ring.clear();
        self.ready = 0;
    }
}

/// Chunking loses nothing: while the ring has room, what it holds after a
/// flush followed by what stays in `out` is what was there before.
pub proof fn law_flush_loses_nothing(held: Seq<i16>, out: Seq<i16>)
    requires
        held.len() + whole_chunks(out.len() as int) <= RING_CAP,
    ensures
        newest(held + out.take(whole_chunks(out.len() as int))) + out.skip(
            whole_chunks(out.len() as int),
        ) == held + out,
        out.len() - whole_chunks(out.len() as int) < CHUNK,
{
    let w = whole_chunks(out.len() as int);
    assert(newest(held + out.take(w)) + out.skip(w) =~= held + out);
}

/// How many frames of `ch` interleaved channels are in `len` samples.
pub fn frame_count(len: usize, ch: usize) -> (n: usize)
    ensures
        n == len as int / (if ch >= 1 {
            ch as int
        } else {
            1
        }),
{
    if ch >= 1 {
        len / ch
    } else {
        len
    }
}

/// The sum of the channels of frame `i`.
pub open spec fn frame_sum(data: Seq<i16>, ch: int, i: int) -> int {
    sample_sum(data.subrange(i * ch, (i + 1) * ch))
}

/// The sum of the samples.
pub open spec fn sample_sum(s: Seq<i16>) -> int
    decreases s.len(),
{
    if s.len() == 0 {
        0
    } else {
        sample_sum(s.drop_last()) + s.last()
    }
}

proof fn lemma_sample_sum_bounds(s: Seq<i16>)
    ensures
        -32768 * s.len() <= sample_sum(s) <= 32767 * s.len(),
    decreases s.len(),
{
    if s.len() > 0 {
        lemma_sample_sum_bounds(s.drop_last());
    }
}

/// The channels of frame `i` added up: the first half of mixing it to mono.
pub fn mix_frame(data: &[i16], ch: usize, i: usize) -> (sum: i32)
    requires
        ch <= u16::MAX,
        (i + 1) * ch <= data@.len(),
    ensures
        sum == frame_sum(data@, ch as int, i as int),
{
    proof {
        assert(i * ch <= (i + 1) * ch) by (nonlinear_arith)
            requires
                0 <= i,
                0 <= ch,
        ;
        assert((i + 1) * ch == i * ch + ch) by (nonlinear_arith);
    }
    let len: usize = data.len();
    let base: usize = i * ch;
    let mut acc: i32 = 0;
    let mut c: usize = 0;
    while c < ch
        invariant
            c <= ch <= u16::MAX,
            len == data@.len(),
            base == i * ch,
            base + ch <= len,
            acc == sample_sum(data@.subrange(base as int, base + c)),
        decreases ch - c,
    {
        proof {
            let s = data@.subrange(base as int, base + c);
            lemma_sample_sum_bounds(s);
            assert(data@.subrange(base as int, base + c + 1).drop_last() =~= s);
        }
        acc = acc + data[base + c] as i32;
        c = c + 1;
    }
    acc
}

/// The sum of unsigned samples, each taken relative to the middle of its range.
pub open spec fn centred_sum(s: Seq<u16>) -> int
    decreases s.len(),
{
    if s.len() == 0 {
        0
    } else {
        centred_sum(s.drop_last()) + s.last() - 32768
    }
}

proof fn lemma_centred_sum_bounds(s: Seq<u16>)
    ensures
        -32768 * s.len() <= centred_sum(s) <= 32767 * s.len(),
    decreases s.len(),
{
    if s.len() > 0 {
        lemma_centred_sum_bounds(s.drop_last());
    }
}

/// The channels of frame `i` of unsigned samples added up, each relative to the
/// middle of its range.
pub fn mix_frame_u16(data: &[u16], ch: usize, i: usize) -> (sum: i32)
    requires
        ch <= u16::MAX,
        (i + 1) * ch <= data@.len(),
    ensures
        sum == centred_sum(data@.subrange(i * ch, (i + 1) * ch)),
{
    proof {
        assert(i * ch <= (i + 1) * ch) by (nonlinear_arith)
            requires
                0 <= i,
                0 <= ch,
        ;
        assert((i + 1) * ch == i * ch + ch) by (nonlinear_arith);
    }
    let len: usize = data.len();
    let base: usize = i * ch;
    let mut acc: i32 = 0;
    let mut c: usize = 0;
    while c < ch
        invariant
            c <= ch <= u16::MAX,
            len == data@.len(),
            base == i * ch,
            base + ch <= len,
            acc == centred_sum(data@.subrange(base as int, base + c)),
        decreases ch - c,
    {
        proof {
            let s = data@.subrange(base as int, base + c);
            lemma_centred_sum_bounds(s);
            assert(data@.subrange(base as int, base + c + 1).drop_last() =~= s);
        }
        acc = acc + (data[base + c] as i32 - 32768);
        c = c + 1;
    }
    acc
}

// ---------------------------------------------------------------------------
// Choosing what to open
// ---------------------------------------------------------------------------
/// Sample formats that capture can read, in order of preference, and the rest.
#[derive(Debug, Clone, Copy, PartialEq, Eq, Structural)]
pub enum SampleFormat {
    I16,
    F32,
    U16,
    Other,
}

/// A range of stream configurations that a device offers.
#[derive(Debug, Clone, Copy, PartialEq, Eq, Structural)]
pub struct InputRange {
    pub format: SampleFormat,
    pub channels: u16,
    pub min_rate: u32,
    pub max_rate: u32,
}

/// The configuration to open: which range, at which rate.
#[derive(Debug, Clone, Copy, PartialEq, Eq, Structural)]
pub struct InputChoice {
    pub index: usize,
    pub rate: u32,
}

impl InputRange {
    /// A format that capture reads, and a sane number of channels.
    pub open spec fn usable(self) -> bool {
        self.format != SampleFormat::Other && 1 <= self.channels <= 8
    }

    /// The rate of the range that is closest to the target.
    pub open spec fn rate(self) -> int {
        if self.min_rate > TARGET_RATE {
            self.min_rate as int
        } else if self.max_rate < TARGET_RATE {
            self.max_rate as int
        } else {
            TARGET_RATE as int
        }
    }

    /// How far that rate is from the target, in Hz.
    pub open spec fn gap(self) -> int {
        if self.rate() >= TARGET_RATE {
            self.rate() - TARGET_RATE
        } else {
            TARGET_RATE - self.rate()
        }
    }

    /// 0 for the best format.
    pub open spec fn format_rank(self) -> int {
        match self.format {
            SampleFormat::I16 => 0,
            SampleFormat::F32 => 1,
            SampleFormat::U16 => 2,
            SampleFormat::Other => 3,
        }
    }

    /// Preferred over another: fewer channels, so mono first, then the closer
    /// rate, then the better format.
    pub open spec fn better(self, other: InputRange) -> bool {
        ||| self.channels < other.channels
        ||| self.channels == other.channels && self.gap() < other.gap()
        ||| self.channels == other.channels && self.gap() == other.gap() && self.format_rank()
            < other.format_rank()
    }

    fn is_usable(&self) -> (r: bool)
        ensures
            r == self.usable(),
    {
        self.format != SampleFormat::Other && 1 <= self.channels && self.channels <= 8
    }

    fn best_rate(&self) -> (r: u32)
        ensures
            r == self.rate(),
    {
        if self.min_rate > TARGET_RATE {
            self.min_rate
        } else if self.max_rate < TARGET_RATE {
            self.max_rate
        } else {
            TARGET_RATE
        }
    }

    fn rate_gap(&self) -> (r: u32)
        ensures
            r == self.gap(),
    {
        let rate: u32 = self.best_rate();
        if rate >= TARGET_RATE {
            rate - TARGET_RATE
        } else {
            TARGET_RATE - rate
        }
    }

    fn rank(&self) -> (r: u32)
        ensures
            r == self.format_rank(),
    {
        match self.format {
            SampleFormat::I16 => 0,
            SampleFormat::F32 => 1,
            SampleFormat::U16 => 2,
            SampleFormat::Other => 3,
        }
    }

    fn is_better(&self, other: &InputRange) -> (r: bool)
        ensures
            r == self.better(*other),
    {
        if self.channels != other.channels {
            return self.channels < other.channels;
        }
        let gap: u32 = self.rate_gap();
        let other_gap: u32 = other.rate_gap();
        if gap != other_gap {
            return gap < other_gap;
        }
        self.rank() < other.rank()
    }
}

/// The best usable configuration: no other is preferred over it, and among
/// equals it is the first offered. `None` when no range is usable; the device's default is
/// then the last resort.
pub fn pick_input_config(ranges: &[InputRange]) -> (r: Option<InputChoice>)
    requires
        forall|i: int|
            0 <= i < ranges@.len() && (#[trigger] ranges@[i]).usable() ==> ranges@[i].min_rate
                <= ranges@[i].max_rate,
    ensures
        match r {
            None => forall|i: int| 0 <= i < ranges@.len() ==> !(#[trigger] ranges@[i]).usable(),
            Some(c) => {
                &&& c.index < ranges@.len()
                &&& ranges@[c.index as int].usable()
                &&& c.rate == ranges@[c.index as int].rate()
                &&& forall|i: int|
                    0 <= i < ranges@.len() && (#[trigger] ranges@[i]).usable()
                        ==> !ranges@[i].better(ranges@[c.index as int])
                &&& forall|i: int|
                    0 <= i < c.index && (#[trigger] ranges@[i]).usable()
                        ==> ranges@[c.index as int].better(ranges@[i])
            },
        },
{
    let mut best: Option<InputChoice> = None;
    let mut k: usize = 0;
    while k < ranges.len()
        invariant
            k <= ranges@.len(),
            match best {
                None => forall|i: int| 0 <= i < k ==> !(#[trigger] ranges@[i]).usable(),
                Some(c) => {
                    &&& c.index < k
                    &&& ranges@[c.index as int].usable()
                    &&& c.rate == ranges@[c.index as int].rate()
                    &&& forall|i: int|
                        0 <= i < k && (#[trigger] ranges@[i]).usable()
                            ==> !ranges@[i].better(ranges@[c.index as int])
                    &&& forall|i: int|
                        0 <= i < c.index && (#[trigger] ranges@[i]).usable()
                            ==> ranges@[c.index as int].better(ranges@[i])
                },
            },
        decreases ranges@.len() - k,
    {
        let range = ranges[k];
        if range.is_usable() {
            let first = match best {
                None => true,
                Some(c) => range.is_better(&ranges[c.index]),
            };
            if first {
                best = Some(InputChoice { index: k, rate: range.best_rate() });
            }
        }
        k = k + 1;
    }
    best
}

/// A usable range opens at a rate that it offers.
pub proof fn law_rate_is_offered(r: InputRange)
    requires
        r.min_rate <= r.max_rate,
    ensures
        r.min_rate <= r.rate() <= r.max_rate,
{
}

/// The preference is an order: nothing is preferred over itself, it passes
/// along, and two ranges of which neither is preferred are alike in channels,
/// closeness of the rate and format.
pub proof fn law_preference_is_an_order(a: InputRange, b: InputRange, c: InputRange)
    ensures
        !a.better(a),
        a.better(b) && b.better(c) ==> a.better(c),
        !a.better(b) && !b.better(a) ==> a.channels == b.channels && a.gap() == b.gap()
            && a.format == b.format,
{
}

/// Mono at the target rate is preferred over everything that has more channels
/// or another rate, whatever the formats.
pub proof fn law_mono_at_the_target_rate_wins(a: InputRange, b: InputRange)
    requires
        a.usable(),
        b.usable(),
        a.channels == 1,
        a.gap() == 0,
        b.channels > 1 || b.gap() > 0,
    ensures
        a.better(b),
{
}

/// The device to open: the first one whose name contains `want`. `None` asks
/// for the system default: when nothing is wanted, and when no name matches.
/// A device whose name cannot be read matches nothing.
pub fn pick_device(names: &Vec<Option<String>>, want: &str) -> (r: Option<usize>)
    ensures
        want@.len() == 0 ==> r is None,
        match r {
            None => want@.len() == 0 || forall|i: int|
                0 <= i < names@.len() ==> !name_matches(#[trigger] names@[i], want@),
            Some(k) => {
                &&& k < names@.len()
                &&& name_matches(names@[k as int], want@)
                &&& forall|i: int| 0 <= i < k ==> !name_matches(#[trigger] names@[i], want@)
            },
        },
{
    if want.is_empty() {
        return None;
    }
    let mut k: usize = 0;
    while k < names.len()
        invariant
            k <= names@.len(),
            want@.len() > 0,
            forall|i: int| 0 <= i < k ==> !name_matches(#[trigger] names@[i], want@),
        decreases names@.len() - k,
    {
        match &names[k] {
            Some(name) => {
                if text::has(name.as_str(), want) {
                    return Some(k);
                }
            },
            None => {},
        }
        k = k + 1;
    }
    None
}

/// The name is known and contains `want`.
pub open spec fn name_matches(name: Option<String>, want: Seq<char>) -> bool {
    match name {
        Some(n) => text::contains(n@, want),
        None => false,
    }
}

// ---------------------------------------------------------------------------
// What capture promises
// ---------------------------------------------------------------------------
/// Energy adds up over stretches of audio, and a single sample has its square.
pub proof fn law_energy_adds_up(a: Seq<i16>, b: Seq<i16>, x: i16)
    ensures
        square_sum(a + b) == square_sum(a) + square_sum(b),
        square_sum(seq![x]) == x * x,
        square_sum(Seq::empty()) == 0,
    decreases b.len(),
{
    let one = seq![x];
    assert(one.drop_last() =~= Seq::empty());
    assert(square_sum(one.drop_last()) == 0);
    if b.len() == 0 {
        assert(a + b =~= a);
    } else {
        law_energy_adds_up(a, b.drop_last(), x);
        assert((a + b).drop_last() =~= a + b.drop_last());
        assert((a + b).last() == b.last());
    }
}

/// The ring keeps everything while there is room.
pub proof fn law_ring_keeps_all_while_there_is_room(s: Seq<i16>)
    ensures
        s.len() <= 160_000 ==> newest(s) == s,
        s.len() > 160_000 ==> newest(s).len() == 160_000 && newest(s).is_suffix_of(s),
{
    if s.len() > 160_000 {
        let n = newest(s);
        assert(s.subrange(s.len() - n.len(), s.len() as int) =~= n);
    }
}

/// Whole chunks are as many samples as fit: a multiple of a chunk, with less
/// than one chunk left over.
pub proof fn law_whole_chunks(n: int)
    requires
        n >= 0,
    ensures
        whole_chunks(n) % 1_600 == 0,
        0 <= n - whole_chunks(n) < 1_600,
{
}

/// The channels of a frame add up, each counted once: the sum over two stretches
/// is the sum of both, and a single sample counts as it is, an unsigned one
/// relative to the middle of its range.
pub proof fn law_channels_add_up(
    a: Seq<i16>,
    b: Seq<i16>,
    x: i16,
    c: Seq<u16>,
    d: Seq<u16>,
    y: u16,
)
    ensures
        sample_sum(a + b) == sample_sum(a) + sample_sum(b),
        sample_sum(seq![x]) == x,
        centred_sum(c + d) == centred_sum(c) + centred_sum(d),
        centred_sum(seq![y]) == y - 32_768,
    decreases b.len() + d.len(),
{
    let one = seq![x];
    assert(one.drop_last() =~= Seq::empty());
    assert(sample_sum(one.drop_last()) == 0);
    let unsigned = seq![y];
    assert(unsigned.drop_last() =~= Seq::empty());
    assert(centred_sum(unsigned.drop_last()) == 0);
    if b.len() > 0 {
        law_channels_add_up(a, b.drop_last(), x, c, d, y);
        assert((a + b).drop_last() =~= a + b.drop_last());
        assert((a + b).last() == b.last());
    } else {
        assert(a + b =~= a);
        if d.len() > 0 {
            law_channels_add_up(a, b, x, c, d.drop_last(), y);
            assert((c + d).drop_last() =~= c + d.drop_last());
            assert((c + d).last() == d.last());
        } else {
            assert(c + d =~= c);
        }
    }
}

/// A frame is made of its own channels alone.
pub proof fn law_frame_is_its_channels(data: Seq<i16>, ch: int, i: int)
    ensures
        frame_sum(data, ch, i) == sample_sum(data.subrange(i * ch, i * ch + ch)),
{
    assert(i * ch + ch == (i + 1) * ch) by (nonlinear_arith);
}

/// The rate that a range opens at is one that it offers, and none that it offers
/// is closer to 16 kHz.
pub proof fn law_rate_is_the_closest(r: InputRange, offered: int)
    requires
        r.min_rate <= offered <= r.max_rate,
    ensures
        r.min_rate <= r.rate() <= r.max_rate,
        r.rate() >= 16_000 ==> r.gap() == r.rate() - 16_000,
        r.rate() < 16_000 ==> r.gap() == 16_000 - r.rate(),
        offered >= 16_000 ==> r.gap() <= offered - 16_000,
        offered < 16_000 ==> r.gap() <= 16_000 - offered,
{
}

/// What makes a configuration the better one: fewer channels before all else,
/// then the rate closer to 16 kHz, then the format, 16-bit integers before
/// floats before unsigned integers, and nothing else.
pub proof fn law_what_is_better(a: InputRange, b: InputRange)
    requires
        a.usable(),
        b.usable(),
    ensures
        a.channels < b.channels ==> a.better(b),
        a.channels > b.channels ==> !a.better(b),
        a.channels == b.channels && a.gap() < b.gap() ==> a.better(b),
        a.channels == b.channels && a.gap() > b.gap() ==> !a.better(b),
        a.channels == b.channels && a.gap() == b.gap() ==> (a.better(b) <==> {
            ||| a.format == SampleFormat::I16 && b.format != SampleFormat::I16
            ||| a.format == SampleFormat::F32 && b.format == SampleFormat::U16
        }),
{
}

/// A configuration is usable where its format can be read and it has one to
/// eight channels.
pub proof fn law_what_is_usable(r: InputRange)
    ensures
        r.usable() <==> {
            &&& r.format == SampleFormat::I16 || r.format == SampleFormat::F32 || r.format
                == SampleFormat::U16
            &&& 1 <= r.channels <= 8
        },
{
}

/// A device is meant by any part of its name, as it is written; one whose name
/// cannot be read is never meant.
pub proof fn law_device_is_meant_by_a_part_of_its_name(name: String, want: Seq<char>)
    ensures
        name_matches(Some(name), want) <==> text::contains(name@, want),
        !name_matches(None, want),
{
}

/// Levels are judged by three numbers, given by their bit patterns: zero, 120
/// and 200.
pub proof fn law_thresholds(level: Level)
    ensures
        LEVEL_ZERO == 0,
        level.bits >= LEVEL_SILENCE <==> level.bits >= 0x42F0_0000,
        level.bits > LEVEL_METER <==> level.bits > 0x4348_0000,
        LEVEL_ZERO < LEVEL_SILENCE < LEVEL_METER,
{
}

} // verus!
