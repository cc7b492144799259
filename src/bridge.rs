//! The realtime bridge between a backend's native callback, which asks for a
//! varying number of frames in planar per-channel buffers, and a user
//! callback, which fills or reads one fixed-size interleaved staging buffer.
use vstd::prelude::*;

verus! {

/// A write-only view over one staging buffer's worth of interleaved samples,
/// handed to the user's output callback.
pub struct Buffer<T> {
    samples: Vec<T>,
}

impl<T> View for Buffer<T> {
    type V = Seq<T>;

    closed spec fn view(&self) -> Seq<T> {
        self.samples@
    }
}

impl<T: Copy> Buffer<T> {
    /// A buffer of `len` copies of `value`.
    fn filled(value: T, len: usize) -> (r: Buffer<T>)
        ensures
            r@ == Seq::new(len as nat, |i: int| value),
    {
        let mut samples: Vec<T> = Vec::with_capacity(len);
        let mut i: usize = 0;
        while i < len
            invariant
                i <= len,
                samples@ == Seq::new(i as nat, |j: int| value),
            decreases len - i,
        {
            samples.push(value);
            i = i + 1;
        }
        Buffer { samples }
    }
}

impl<T> Buffer<T> {
    /// Number of samples in the buffer (frames times channels).
    pub fn len(&self) -> (r: usize)
        ensures
            r == self@.len(),
    {
        self.samples.len()
    }

    /// Writes `value` at `index`; the buffer offers no way to read back.
    pub fn set(&mut self, index: usize, value: T)
        requires
            index < old(self)@.len(),
        ensures
            final(self)@ == old(self)@.update(index as int, value),
    {
        self.samples.set(index, value);
    }
}

/// The user side of an output stream: fills the whole staging buffer with the
/// next interleaved samples each time it is called.
pub trait OutputCallback<T> {
    /// Every buffer this callback has filled, as it left each one, in order.
    /// A verified implementation defines it and proves `fill` against it.
    open spec fn filled(&self) -> Seq<Seq<T>> {
        Seq::empty()
    }

    /// Fills `buffer` in place; its length stays the same.
    fn fill(&mut self, buffer: &mut Buffer<T>)
        ensures
            final(buffer)@.len() == old(buffer)@.len(),
            final(self).filled() == old(self).filled().push(final(buffer)@),
    ;
}

/// The user side of an input stream: receives each full staging buffer of
/// interleaved samples.
pub trait InputCallback<T> {
    /// Every buffer this callback has received, in order.
    /// A verified implementation defines it and proves `consume` against it.
    open spec fn consumed(&self) -> Seq<Seq<T>> {
        Seq::empty()
    }

    /// Receives one full buffer.
    fn consume(&mut self, samples: &[T])
        ensures
            final(self).consumed() == old(self).consumed().push(samples@),
    ;
}

/// The buffers of `blocks`, one after the other.
pub open spec fn concat<T>(blocks: Seq<Seq<T>>) -> Seq<T>
    decreases blocks.len(),
{
    if blocks.len() == 0 {
        Seq::empty()
    } else {
        concat(blocks.drop_last()) + blocks.last()
    }
}

/// The buffers a callback history gained between `before` and `after`.
pub open spec fn new_blocks<T>(before: Seq<Seq<T>>, after: Seq<Seq<T>>) -> Seq<Seq<T>> {
    after.subrange(before.len() as int, after.len() as int)
}

/// Concatenating two runs of buffers concatenates their contents.
pub proof fn lemma_concat_append<T>(x: Seq<Seq<T>>, y: Seq<Seq<T>>)
    ensures
        concat(x + y) == concat(x) + concat(y),
    decreases y.len(),
{
    if y.len() == 0 {
        assert(x + y =~= x);
        assert(concat(x) + concat(y) =~= concat(x));
    } else {
        lemma_concat_append(x, y.drop_last());
        assert((x + y).drop_last() =~= x + y.drop_last());
        assert(concat(x + y) =~= concat(x) + concat(y));
    }
}

proof fn lemma_concat_push<T>(before: Seq<Seq<T>>, hist: Seq<Seq<T>>, x: Seq<T>)
    requires
        before.len() <= hist.len(),
    ensures
        concat(new_blocks(before, hist.push(x))) == concat(new_blocks(before, hist)) + x,
{
    let a = new_blocks(before, hist.push(x));
    assert(a.drop_last() =~= new_blocks(before, hist));
}

/// Number of blocks of `period` frames needed to cover `frames` frames.
pub open spec fn blocks_for(frames: nat, period: nat) -> nat {
    if period == 0 {
        0
    } else {
        ((frames + period - 1) as nat / period) as nat
    }
}

/// The position of sample `channel` of frame `frame` in an interleaved stream.
pub open spec fn interleaved_index(frame: int, channel: int, channels: int) -> int {
    frame * channels + channel
}

/// The position of sample `frame` of channel `channel` in a planar buffer of
/// `frames` frames per channel.
pub open spec fn planar_index(frame: int, channel: int, frames: int) -> int {
    channel * frames + frame
}

proof fn lemma_index_bounds(a: int, b: int, n: int, m: int)
    requires
        0 <= a < n,
        0 <= b < m,
    ensures
        0 <= a * m + b < n * m,
        0 <= b + a * m < m * n,
{
    assert(a * m + b < n * m) by (nonlinear_arith)
        requires
            0 <= a < n,
            0 <= b < m,
    ;
    assert(0 <= a * m) by (nonlinear_arith)
        requires
            0 <= a,
            0 <= m,
    ;
    assert(n * m == m * n) by (nonlinear_arith);
}

proof fn lemma_emitted_in_range(f: int, k: int, c: int, p: int, inv: int, total: int)
    requires
        0 <= f < total,
        total <= inv * p,
        0 <= k < c,
    ensures
        0 <= f * c + k < inv * (c * p),
{
    assert(0 <= f * c + k < inv * (c * p)) by (nonlinear_arith)
        requires
            0 <= f < total,
            total <= inv * p,
            0 <= k < c,
    ;
}

proof fn lemma_next_block(inv: int, c: int, p: int)
    ensures
        (inv + 1) * (c * p) == inv * (c * p) + c * p,
        (inv + 1) * p == inv * p + p,
        0 * p == 0,
{
    assert((inv + 1) * (c * p) == inv * (c * p) + c * p) by (nonlinear_arith);
    assert((inv + 1) * p == inv * p + p) by (nonlinear_arith);
}

proof fn lemma_planar_distinct(f: int, k: int, i: int, c: int, frames: int)
    requires
        0 <= f < frames,
        0 <= i < frames,
        0 <= k,
        0 <= c,
        (f, k) != (i, c),
    ensures
        k * frames + f != c * frames + i,
{
    if k < c {
        assert(k * frames + f < c * frames + i) by (nonlinear_arith)
            requires
                k < c,
                0 <= f < frames,
                0 <= i,
        ;
    } else if c < k {
        assert(c * frames + i < k * frames + f) by (nonlinear_arith)
            requires
                c < k,
                0 <= i < frames,
                0 <= f,
        ;
    }
}

proof fn lemma_block_position(inv: int, period: int, channels: int, cursor: int, channel: int)
    ensures
        (inv - 1) * period == inv * period - period,
        (inv - 1) * (channels * period) == inv * (channels * period) - channels * period,
        (inv - 1) * (channels * period) + (channel + cursor * channels) == ((inv - 1) * period
            + cursor) * channels + channel,
{
    assert((inv - 1) * period == inv * period - period) by (nonlinear_arith);
    assert((inv - 1) * (channels * period) == inv * (channels * period) - channels * period)
        by (nonlinear_arith);
    assert((inv - 1) * (channels * period) + (channel + cursor * channels) == ((inv - 1) * period
        + cursor) * channels + channel) by (nonlinear_arith);
}

proof fn lemma_blocks_for(frames: int, inv: int, period: int, cursor: int)
    requires
        period >= 1,
        1 <= cursor <= period,
        inv >= 0,
        frames >= 0,
        frames + period == inv * period + cursor,
    ensures
        blocks_for(frames as nat, period as nat) == inv,
{
    let k = inv * period + (cursor - 1);
    assert(frames + period - 1 == k);
    assert(k / period == inv) by (nonlinear_arith)
        requires
            period >= 1,
            0 <= cursor - 1 < period,
            k == inv * period + (cursor - 1),
    ;
}

/// One native output call of `frames` frames took the bridge from `pre` to
/// `post`, wrote `out_after` over the planar buffer `out_before`, and took the
/// callback's history of filled buffers from `fills_before` to `fills_after`:
/// the callback ran exactly as often as needed to cover all frames sent so
/// far, the buffers it filled extend the bridge's data in order, and every
/// frame sent is the next frame of that data.
pub open spec fn output_step<T: Copy>(
    pre: OutputBridge<T>,
    post: OutputBridge<T>,
    frames: nat,
    out_before: Seq<T>,
    out_after: Seq<T>,
    fills_before: Seq<Seq<T>>,
    fills_after: Seq<Seq<T>>,
) -> bool {
    &&& post.wf()
    &&& fills_before.len() <= fills_after.len()
    &&& fills_after.subrange(0, fills_before.len() as int) == fills_before
    &&& fills_after.len() - fills_before.len() == post.invocations() - pre.invocations()
    &&& post.produced() == pre.produced() + concat(new_blocks(fills_before, fills_after))
    &&& post.channels() == pre.channels()
    &&& post.period() == pre.period()
    &&& post.frames_out() == pre.frames_out() + frames
    &&& post.invocations() == blocks_for(post.frames_out(), post.period())
    &&& post.produced().len() == post.invocations() * (post.channels() * post.period())
    &&& pre.produced().len() <= post.produced().len()
    &&& post.produced().subrange(0, pre.produced().len() as int) == pre.produced()
    &&& out_after.len() == out_before.len()
    &&& forall|f: int, c: int|
        0 <= f < frames && 0 <= c < pre.channels() ==> #[trigger] out_after[planar_index(
            f,
            c,
            frames as int,
        )] == post.produced()[interleaved_index(pre.frames_out() + f, c, pre.channels() as int)]
}

/// Output side of the bridge: turns full interleaved buffers from the user
/// callback into the number of planar frames each native call asks for,
/// carrying the unconsumed rest of a buffer over to the next call.
pub struct OutputBridge<T> {
    channels: usize,
    period: usize,
    staging: Buffer<T>,
    cursor: usize,
    produced: Ghost<Seq<T>>,
    frames_out: Ghost<nat>,
    invocations: Ghost<nat>,
}

impl<T: Copy> OutputBridge<T> {
    /// Number of interleaved channels.
    pub closed spec fn channels(&self) -> nat {
        self.channels as nat
    }

    /// Frames per staging buffer.
    pub closed spec fn period(&self) -> nat {
        self.period as nat
    }

    /// Index of the next frame to emit from the staging buffer; equal to the
    /// period when the buffer is used up.
    pub closed spec fn cursor(&self) -> nat {
        self.cursor as nat
    }

    /// Current contents of the staging buffer.
    pub closed spec fn staged(&self) -> Seq<T> {
        self.staging@
    }

    /// Every staging buffer the user callback has filled, in order, concatenated.
    pub closed spec fn produced(&self) -> Seq<T> {
        self.produced@
    }

    /// Total frames written to native buffers so far.
    pub closed spec fn frames_out(&self) -> nat {
        self.frames_out@
    }

    /// Total invocations of the user callback so far.
    pub closed spec fn invocations(&self) -> nat {
        self.invocations@
    }

    /// The bridge's invariant: the staging buffer holds one period of
    /// interleaved frames, the cursor lies in `1..=period`, the callback data
    /// covers exactly the frames sent plus the rest of the current buffer, and
    /// the staging buffer is the last block of that data.
    pub open spec fn wf(&self) -> bool {
        let c = self.channels() as int;
        let p = self.period() as int;
        &&& c >= 1
        &&& p >= 1
        &&& self.staged().len() == c * p
        &&& c * p <= usize::MAX
        &&& 1 <= self.cursor() <= p
        &&& self.produced().len() == self.invocations() * (c * p)
        &&& self.frames_out() + p == self.invocations() * p + self.cursor()
        &&& self.invocations() > 0 ==> self.staged() == self.produced().subrange(
            self.produced().len() - c * p,
            self.produced().len() as int,
        )
    }

    /// A bridge for `channels` channels and `period` frames per user buffer,
    /// whose staging buffer starts used up, so that the first frame asked for
    /// calls the user callback. `silence` is the sample value the buffer is
    /// allocated with.
    pub fn new(channels: usize, period: usize, silence: T) -> (r: OutputBridge<T>)
        requires
            channels >= 1,
            period >= 1,
            channels * period <= usize::MAX,
        ensures
            r.wf(),
            r.channels() == channels,
            r.period() == period,
            r.cursor() == period,
            r.staged() == Seq::new((channels * period) as nat, |i: int| silence),
            r.produced() == Seq::<T>::empty(),
            r.frames_out() == 0,
            r.invocations() == 0,
    {
        OutputBridge {
            channels,
            period,
            staging: Buffer::filled(silence, channels * period),
            cursor: period,
            produced: Ghost(Seq::empty()),
            frames_out: Ghost(0),
            invocations: Ghost(0),
        }
    }

    /// Number of interleaved channels.
    pub fn channel_count(&self) -> (r: usize)
        ensures
            r == self.channels(),
    {
        self.channels
    }

    /// Frames per staging buffer.
    pub fn period_frames(&self) -> (r: usize)
        ensures
            r == self.period(),
    {
        self.period
    }

    /// Index of the next frame to emit from the staging buffer.
    pub fn position(&self) -> (r: usize)
        ensures
            r == self.cursor(),
    {
        self.cursor
    }

    fn refill<F: OutputCallback<T>>(&mut self, callback: &mut F)
        requires
            old(self).wf(),
            old(self).cursor == old(self).period,
        ensures
            final(self).channels == old(self).channels,
            final(self).period == old(self).period,
            final(self).cursor == 0,
            final(self).frames_out == old(self).frames_out,
            final(self).invocations@ == old(self).invocations@ + 1,
            final(self).staging@.len() == old(self).channels * old(self).period,
            final(self).produced@ == old(self).produced@ + final(self).staging@,
            final(callback).filled() == old(callback).filled().push(final(self).staging@),
    {
        callback.fill(&mut self.staging);
        self.cursor = 0;
        proof {
            self.produced@ = self.produced@ + self.staging@;
            self.invocations@ = self.invocations@ + 1;
        }
    }

    /// Answers one native call for `frames` frames: `out` holds one run of
    /// `frames` samples per channel, channel after channel. Each frame comes
    /// from the staging buffer at the cursor, and the user callback is called
    /// exactly when the buffer is used up and another frame is needed.
    pub fn process<F: OutputCallback<T>>(&mut self, frames: usize, out: &mut Vec<T>, callback: &mut F)
        requires
            old(self).wf(),
            old(out)@.len() == old(self).channels() * frames,
        ensures
            output_step(
                *old(self),
                *final(self),
                frames as nat,
                old(out)@,
                final(out)@,
                old(callback).filled(),
                final(callback).filled(),
            ),
    {
        let ghost start = self.frames_out@;
        let ghost before = self.produced@;
        let ghost cb0 = callback.filled();
        let ghost inv0 = self.invocations@;
        assert(new_blocks(cb0, cb0) =~= Seq::<Seq<T>>::empty());
        assert(before + concat(new_blocks(cb0, cb0)) =~= before);
        let channels = self.channels;
        let out_len = out.len();
        let mut i: usize = 0;
        while i < frames
            invariant
                self.wf(),
                self.channels == channels,
                self.period == old(self).period,
                i <= frames,
                self.frames_out@ == start + i,
                before.len() <= self.produced@.len(),
                self.produced@.subrange(0, before.len() as int) == before,
                cb0.len() <= callback.filled().len(),
                callback.filled().subrange(0, cb0.len() as int) == cb0,
                self.invocations@ >= inv0,
                callback.filled().len() - cb0.len() == self.invocations@ - inv0,
                self.produced@ == before + concat(new_blocks(cb0, callback.filled())),
                out@.len() == channels * frames,
                out@.len() == out_len,
                forall|f: int, c: int|
                    0 <= f < i && 0 <= c < channels ==> #[trigger] out@[planar_index(
                        f,
                        c,
                        frames as int,
                    )] == self.produced@[interleaved_index(start + f, c, channels as int)],
            decreases frames - i,
        {
            let ghost prev = self.produced@;
            let ghost prev_inv = self.invocations@;
            proof {
                lemma_next_block(self.invocations@ as int, channels as int, self.period as int);
            }
            let ghost fills_prev = callback.filled();
            if self.cursor == self.period {
                self.refill(callback);
                proof {
                    lemma_concat_push(cb0, fills_prev, self.staging@);
                    assert(callback.filled().subrange(0, cb0.len() as int) =~= cb0) by {
                        assert(fills_prev.subrange(0, cb0.len() as int) == cb0);
                    }
                    assert(self.produced@ =~= before + concat(new_blocks(cb0, callback.filled())));
                }
                assert(self.produced@.subrange(0, prev.len() as int) =~= prev);
                assert(self.staging@ =~= self.produced@.subrange(
                    self.produced@.len() - channels * self.period,
                    self.produced@.len() as int,
                ));
            }
            assert(self.produced@.subrange(0, prev.len() as int) == prev);
            let mut c: usize = 0;
            while c < channels
                invariant
                    self.channels == channels,
                    channels >= 1,
                    self.period >= 1,
                    self.cursor < self.period,
                    self.staging@.len() == channels * self.period,
                    channels * self.period <= usize::MAX,
                    out@.len() <= usize::MAX,
                    self.produced@.len() == self.invocations@ * (channels * self.period),
                    self.invocations@ > 0,
                    self.staging@ == self.produced@.subrange(
                        self.produced@.len() - channels * self.period,
                        self.produced@.len() as int,
                    ),
                    self.frames_out@ + self.period == self.invocations@ * self.period + self.cursor,
                    self.frames_out@ == start + i,
                    i < frames,
                    c <= channels,
                    out@.len() == channels * frames,
                    self.produced@.subrange(0, prev.len() as int) == prev,
                    prev.len() == prev_inv * (channels * self.period),
                    start + i <= prev_inv * self.period,
                    forall|f: int, k: int|
                        0 <= f < i && 0 <= k < channels ==> #[trigger] out@[planar_index(
                            f,
                            k,
                            frames as int,
                        )] == prev[interleaved_index(start + f, k, channels as int)],
                    forall|k: int|
                        0 <= k < c ==> #[trigger] out@[planar_index(i as int, k, frames as int)]
                            == self.produced@[interleaved_index(start + i, k, channels as int)],
                decreases channels - c,
            {
                proof {
                    lemma_index_bounds(self.cursor as int, c as int, self.period as int, channels as int);
                    lemma_index_bounds(c as int, i as int, channels as int, frames as int);
                    lemma_block_position(
                        self.invocations@ as int,
                        self.period as int,
                        channels as int,
                        self.cursor as int,
                        c as int,
                    );
                }
                let v = self.staging.samples[c + self.cursor * channels];
                let ghost out_prev = out@;
                out.set(c * frames + i, v);
                proof {
                    assert forall|f: int, k: int|
                        0 <= f < frames && 0 <= k < channels && (f, k) != (i as int, c as int) implies out@[#[trigger] planar_index(
                            f,
                            k,
                            frames as int,
                        )] == out_prev[planar_index(f, k, frames as int)] by {
                        lemma_planar_distinct(f, k, i as int, c as int, frames as int);
                        lemma_index_bounds(k, f, channels as int, frames as int);
                    }
                    let idx = c + self.cursor * channels;
                    let base = self.produced@.len() - channels * self.period;
                    assert(self.staging@[idx as int] == self.produced@[base + idx]);
                    assert(out@[planar_index(i as int, c as int, frames as int)] == self.produced@[
                        interleaved_index(start + i, c as int, channels as int)]);
                }
                c = c + 1;
            }
            self.cursor = self.cursor + 1;
            proof {
                self.frames_out@ = self.frames_out@ + 1;
                assert forall|f: int, k: int|
                    0 <= f < i + 1 && 0 <= k < channels implies #[trigger] out@[planar_index(
                        f,
                        k,
                        frames as int,
                    )] == self.produced@[interleaved_index(start + f, k, channels as int)] by {
                    if f < i {
                        lemma_emitted_in_range(start + f, k, channels as int, self.period as int, prev_inv as int, start + i);
                    }
                }
            }
            assert(self.produced@.subrange(0, before.len() as int) =~= before) by {
                assert(prev.subrange(0, before.len() as int) == before);
            }
            i = i + 1;
        }
        proof {
            lemma_blocks_for(
                self.frames_out@ as int,
                self.invocations@ as int,
                self.period as int,
                self.cursor as int,
            );
        }
    }
}

proof fn lemma_input_position(inv: int, p: int, c: int, cursor: int, ch: int)
    ensures
        (inv * p + cursor) * c + ch == inv * (c * p) + (cursor * c + ch),
        (inv + 1) * (c * p) == inv * (c * p) + c * p,
        (cursor + 1) * c == cursor * c + c,
        p * c == c * p,
        (inv + 1) * p == inv * p + p,
        0 * (c * p) == 0,
{
    assert((inv + 1) * p == inv * p + p) by (nonlinear_arith);
    assert(0 * (c * p) == 0) by (nonlinear_arith);
    assert((inv * p + cursor) * c + ch == inv * (c * p) + (cursor * c + ch)) by (nonlinear_arith);
    assert((inv + 1) * (c * p) == inv * (c * p) + c * p) by (nonlinear_arith);
    assert((cursor + 1) * c == cursor * c + c) by (nonlinear_arith);
    assert(p * c == c * p) by (nonlinear_arith);
}

/// One native input call of `frames` frames, reading the planar buffer
/// `input`, took the bridge from `pre` to `post` and the callback's history of
/// received buffers from `consumed_before` to `consumed_after`: the frames
/// were appended in order to what was captured, and the callback received
/// every whole buffer of captured frames, exactly once each, in order.
pub open spec fn input_step<T: Copy>(
    pre: InputBridge<T>,
    post: InputBridge<T>,
    frames: nat,
    input: Seq<T>,
    consumed_before: Seq<Seq<T>>,
    consumed_after: Seq<Seq<T>>,
) -> bool {
    &&& post.wf()
    &&& consumed_before.len() <= consumed_after.len()
    &&& consumed_after.subrange(0, consumed_before.len() as int) == consumed_before
    &&& consumed_after.len() - consumed_before.len() == post.invocations() - pre.invocations()
    &&& post.delivered() == pre.delivered() + concat(new_blocks(consumed_before, consumed_after))
    &&& post.channels() == pre.channels()
    &&& post.period() == pre.period()
    &&& post.frames_in() == pre.frames_in() + frames
    &&& post.invocations() == post.frames_in() / post.period()
    &&& post.captured().len() == post.frames_in() * post.channels()
    &&& pre.captured().len() <= post.captured().len()
    &&& post.captured().subrange(0, pre.captured().len() as int) == pre.captured()
    &&& forall|f: int, c: int|
        0 <= f < frames && 0 <= c < pre.channels() ==> post.captured()[interleaved_index(
            pre.frames_in() + f,
            c,
            pre.channels() as int,
        )] == #[trigger] input[planar_index(f, c, frames as int)]
    &&& post.delivered() == post.captured().subrange(
        0,
        (post.invocations() * (post.channels() * post.period())) as int,
    )
}

/// Input side of the bridge: gathers the planar frames of each native call
/// into an interleaved staging buffer and hands the buffer to the user
/// callback each time it is full, carrying a partial buffer over to the next
/// call.
pub struct InputBridge<T> {
    channels: usize,
    period: usize,
    staging: Vec<T>,
    cursor: usize,
    captured: Ghost<Seq<T>>,
    delivered: Ghost<Seq<T>>,
    invocations: Ghost<nat>,
}

impl<T: Copy> InputBridge<T> {
    /// Number of interleaved channels.
    pub closed spec fn channels(&self) -> nat {
        self.channels as nat
    }

    /// Frames per staging buffer.
    pub closed spec fn period(&self) -> nat {
        self.period as nat
    }

    /// Frames stored in the staging buffer and not yet handed to the callback.
    pub closed spec fn cursor(&self) -> nat {
        self.cursor as nat
    }

    /// Every frame read from native buffers so far, interleaved, in order.
    pub closed spec fn captured(&self) -> Seq<T> {
        self.captured@
    }

    /// Every buffer handed to the user callback so far, concatenated.
    pub closed spec fn delivered(&self) -> Seq<T> {
        self.delivered@
    }

    /// Total frames read from native buffers so far.
    pub open spec fn frames_in(&self) -> nat {
        self.invocations() * self.period() + self.cursor()
    }

    /// Total invocations of the user callback so far.
    pub closed spec fn invocations(&self) -> nat {
        self.invocations@
    }

    /// Current contents of the staging buffer.
    pub closed spec fn staged(&self) -> Seq<T> {
        self.staging@
    }

    /// The bridge's invariant: the staging buffer holds one period of
    /// interleaved frames, its first `cursor` frames are the captured frames
    /// not yet handed on, and the callback has received exactly the captured
    /// frames before them.
    pub open spec fn wf(&self) -> bool {
        let c = self.channels() as int;
        let p = self.period() as int;
        let base = self.invocations() * (c * p);
        &&& c >= 1
        &&& p >= 1
        &&& self.staged().len() == c * p
        &&& c * p <= usize::MAX
        &&& self.cursor() < p
        &&& self.captured().len() == base + self.cursor() * c
        &&& self.delivered() == self.captured().subrange(0, base)
        &&& forall|j: int| 0 <= j < self.cursor() * c ==> #[trigger] self.staged()[j] == self.captured()[base + j]
    }

    /// A bridge for `channels` channels and `period` frames per user buffer,
    /// with an empty staging buffer. `silence` is the sample value the buffer
    /// is allocated with.
    pub fn new(channels: usize, period: usize, silence: T) -> (r: InputBridge<T>)
        requires
            channels >= 1,
            period >= 1,
            channels * period <= usize::MAX,
        ensures
            r.wf(),
            r.channels() == channels,
            r.period() == period,
            r.cursor() == 0,
            r.staged() == Seq::new((channels * period) as nat, |i: int| silence),
            r.captured() == Seq::<T>::empty(),
            r.delivered() == Seq::<T>::empty(),
            r.invocations() == 0,
    {
        let b = Buffer::filled(silence, channels * period);
        proof {
            lemma_input_position(0, period as int, channels as int, 0, 0);
            assert(Seq::<T>::empty().subrange(0, 0) =~= Seq::<T>::empty());
        }
        InputBridge {
            channels,
            period,
            staging: b.samples,
            cursor: 0,
            captured: Ghost(Seq::empty()),
            delivered: Ghost(Seq::empty()),
            invocations: Ghost(0),
        }
    }

    /// Number of frames stored and not yet handed to the callback.
    pub fn position(&self) -> (r: usize)
        ensures
            r == self.cursor(),
    {
        self.cursor
    }

    /// Takes one native call of `frames` frames: `input` holds one run of
    /// `frames` samples per channel, channel after channel. The frames are
    /// interleaved into the staging buffer, which goes to the user callback
    /// each time it is full.
    pub fn process<F: InputCallback<T>>(&mut self, frames: usize, input: &Vec<T>, callback: &mut F)
        requires
            old(self).wf(),
            input@.len() == old(self).channels() * frames,
        ensures
            input_step(
                *old(self),
                *final(self),
                frames as nat,
                input@,
                old(callback).consumed(),
                final(callback).consumed(),
            ),
    {
        let ghost start = self.frames_in();
        let ghost before = self.captured@;
        let ghost del0 = self.delivered@;
        let ghost cb0 = callback.consumed();
        let ghost inv0 = self.invocations@;
        assert(new_blocks(cb0, cb0) =~= Seq::<Seq<T>>::empty());
        assert(del0 + concat(new_blocks(cb0, cb0)) =~= del0);
        let channels = self.channels;
        let period = self.period;
        let in_len = input.len();
        proof {
            lemma_input_position(self.invocations@ as int, period as int, channels as int, self.cursor as int, 0);
        }
        let mut i: usize = 0;
        while i < frames
            invariant
                self.wf(),
                self.channels == channels,
                self.period == period,
                i <= frames,
                in_len == input@.len(),
                input@.len() == channels * frames,
                self.frames_in() == start + i,
                self.captured@.len() == (start + i) * channels,
                before.len() <= self.captured@.len(),
                self.captured@.subrange(0, before.len() as int) == before,
                before.len() == start * channels,
                cb0.len() <= callback.consumed().len(),
                callback.consumed().subrange(0, cb0.len() as int) == cb0,
                self.invocations@ >= inv0,
                callback.consumed().len() - cb0.len() == self.invocations@ - inv0,
                self.delivered@ == del0 + concat(new_blocks(cb0, callback.consumed())),
                forall|f: int, c: int|
                    0 <= f < i && 0 <= c < channels ==> self.captured@[interleaved_index(
                        start + f,
                        c,
                        channels as int,
                    )] == #[trigger] input@[planar_index(f, c, frames as int)],
            decreases frames - i,
        {
            let ghost prev = self.captured@;
            let ghost inv = self.invocations@;
            let ghost cur0 = self.cursor;
            let ghost del_iter = self.delivered@;
            let mut c: usize = 0;
            while c < channels
                invariant
                    self.channels == channels,
                    self.period == period,
                    self.invocations@ == inv,
                    self.cursor == cur0,
                    self.delivered@ == del_iter,
                    channels >= 1,
                    period >= 1,
                    self.cursor < period,
                    self.staging@.len() == channels * period,
                    channels * period <= usize::MAX,
                    in_len == input@.len(),
                    input@.len() == channels * frames,
                    i < frames,
                    c <= channels,
                    self.delivered@ == self.captured@.subrange(0, inv * (channels * period)),
                    self.captured@.len() == inv * (channels * period) + self.cursor * channels + c,
                    self.captured@.subrange(0, prev.len() as int) == prev,
                    prev.len() == inv * (channels * period) + self.cursor * channels,
                    forall|j: int|
                        0 <= j < self.cursor * channels + c ==> #[trigger] self.staging@[j]
                            == self.captured@[inv * (channels * period) + j],
                    forall|k: int|
                        0 <= k < c ==> self.captured@[prev.len() + k] == #[trigger] input@[planar_index(
                            i as int,
                            k,
                            frames as int,
                        )],
                decreases channels - c,
            {
                proof {
                    lemma_index_bounds(self.cursor as int, c as int, period as int, channels as int);
                    lemma_index_bounds(c as int, i as int, channels as int, frames as int);
                }
                let v = input[c * frames + i];
                let ghost cap_prev = self.captured@;
                self.staging.set(c + self.cursor * channels, v);
                proof {
                    self.captured@ = self.captured@.push(v);
                    assert(self.captured@.subrange(0, prev.len() as int) =~= prev) by {
                        assert(cap_prev.subrange(0, prev.len() as int) == prev);
                    }
                    assert(self.delivered@ =~= self.captured@.subrange(0, inv * (channels * period))) by {
                        assert(cap_prev.subrange(0, inv * (channels * period)) == self.delivered@);
                    }
                }
                c = c + 1;
            }
            proof {
                lemma_input_position(inv as int, period as int, channels as int, self.cursor as int, 0);
                assert forall|f: int, k: int|
                    0 <= f < i + 1 && 0 <= k < channels implies self.captured@[interleaved_index(
                        start + f,
                        k,
                        channels as int,
                    )] == #[trigger] input@[planar_index(f, k, frames as int)] by {
                    if f < i {
                        lemma_index_bounds(start + f, k, start + i, channels as int);
                        assert(prev[interleaved_index(start + f, k, channels as int)] == input@[planar_index(f, k, frames as int)]);
                    } else {
                        assert(interleaved_index(start + f, k, channels as int) == prev.len() + k) by (nonlinear_arith)
                            requires
                                f == i,
                                prev.len() == (start + i) * channels,
                        ;
                    }
                }
            }
            self.cursor = self.cursor + 1;
            if self.cursor == period {
                let ghost hist = callback.consumed();
                callback.consume(self.staging.as_slice());
                self.cursor = 0;
                proof {
                    lemma_concat_push(cb0, hist, self.staging@);
                    assert(callback.consumed().subrange(0, cb0.len() as int) =~= cb0) by {
                        assert(hist.subrange(0, cb0.len() as int) == cb0);
                    }
                    assert(self.delivered@ + self.staging@ =~= del0 + concat(new_blocks(cb0, callback.consumed())));
                    self.delivered@ = self.delivered@ + self.staging@;
                    self.invocations@ = self.invocations@ + 1;
                    lemma_input_position(inv as int, period as int, channels as int, period as int, 0);
                    assert(self.invocations@ * period == inv * period + period);
                    let base = inv * (channels * period);
                    assert(self.staging@ =~= self.captured@.subrange(base, base + channels * period));
                    assert(self.delivered@ =~= self.captured@.subrange(0, self.invocations@ * (channels * period)));
                }
            }
            proof {
                lemma_input_position(self.invocations@ as int, period as int, channels as int, self.cursor as int, 0);
                assert(self.captured@.subrange(0, before.len() as int) =~= before) by {
                    assert(prev.subrange(0, before.len() as int) == before);
                }
                assert((start + i + 1) * channels == (start + i) * channels + channels) by (nonlinear_arith);
                assert(self.frames_in() == start + i + 1);
            }
            i = i + 1;
        }
        proof {
            let inv = self.invocations@ as int;
            let k = self.cursor as int;
            let p = period as int;
            assert((inv * p + k) / p == inv) by (nonlinear_arith)
                requires
                    p >= 1,
                    0 <= k < p,
                    inv >= 0,
            ;
        }
    }
}

/// When the frames sent out so far make a whole number `n` of periods, the
/// user callback was called exactly `n` times and every sample it produced has
/// been sent out, none held back.
pub proof fn lemma_aligned_total_sends_whole_blocks<T: Copy>(b: OutputBridge<T>, n: nat)
    requires
        b.wf(),
        b.frames_out() == n * b.period(),
    ensures
        b.invocations() == n,
        b.cursor() == b.period(),
        b.produced().len() == b.frames_out() * b.channels(),
{
    let p = b.period() as int;
    let c = b.channels() as int;
    let inv = b.invocations() as int;
    let k = b.cursor() as int;
    assert(inv == n && k == p) by (nonlinear_arith)
        requires
            p >= 1,
            1 <= k <= p,
            inv >= 0,
            n * p + p == inv * p + k,
    ;
    assert(n * (c * p) == (n * p) * c) by (nonlinear_arith);
}

/// Two output bridges of the same shape that have sent out the same number of
/// frames from the same callback data are in the same state, however the
/// frames were split into native calls: the cursor, the count of callback
/// invocations and the staged samples agree.
pub proof fn lemma_state_fixed_by_total<T: Copy>(a: OutputBridge<T>, b: OutputBridge<T>)
    requires
        a.wf(),
        b.wf(),
        a.channels() == b.channels(),
        a.period() == b.period(),
        a.frames_out() == b.frames_out(),
        a.produced() == b.produced(),
    ensures
        a.cursor() == b.cursor(),
        a.invocations() == b.invocations(),
        a.invocations() > 0 ==> a.staged() == b.staged(),
{
    let cp = (a.channels() * a.period()) as int;
    let ia = a.invocations() as int;
    let ib = b.invocations() as int;
    let p = a.period() as int;
    assert(cp >= 1) by (nonlinear_arith)
        requires
            a.channels() >= 1,
            a.period() >= 1,
            cp == a.channels() * a.period(),
    ;
    assert(ia == ib) by (nonlinear_arith)
        requires
            cp >= 1,
            ia * cp == ib * cp,
    ;
}

/// A native call first sends the rest of the staging buffer it found, from
/// the cursor on, before the callback fills the next one.
pub proof fn lemma_step_starts_at_cursor<T: Copy>(
    pre: OutputBridge<T>,
    post: OutputBridge<T>,
    frames: nat,
    out_before: Seq<T>,
    out_after: Seq<T>,
    fills_before: Seq<Seq<T>>,
    fills_after: Seq<Seq<T>>,
)
    requires
        pre.wf(),
        output_step(pre, post, frames, out_before, out_after, fills_before, fills_after),
    ensures
        forall|f: int, ch: int|
            0 <= f < frames && pre.cursor() + f < pre.period() && 0 <= ch < pre.channels()
                ==> #[trigger] out_after[planar_index(f, ch, frames as int)] == pre.staged()[(
            pre.cursor() + f) * pre.channels() + ch],
{
    let c = pre.channels() as int;
    let p = pre.period() as int;
    let inv = pre.invocations() as int;
    let k = pre.cursor() as int;
    assert forall|f: int, ch: int|
        0 <= f < frames && pre.cursor() + f < pre.period() && 0 <= ch < pre.channels()
            implies #[trigger] out_after[planar_index(f, ch, frames as int)] == pre.staged()[(
        pre.cursor() + f) * pre.channels() + ch] by {
        assert(inv > 0) by (nonlinear_arith)
            requires
                pre.frames_out() + p == inv * p + k,
                k + f < p,
                f >= 0,
                inv >= 0,
                p >= 1,
        ;
        let j = (k + f) * c + ch;
        let idx = interleaved_index(pre.frames_out() + f, ch, c);
        let base = pre.produced().len() - c * p;
        lemma_index_bounds(k + f, ch, p, c);
        lemma_block_position(inv, p, c, k + f, ch);
        assert(idx == base + j) by (nonlinear_arith)
            requires
                idx == (pre.frames_out() + f) * c + ch,
                pre.frames_out() + p == inv * p + k,
                base == inv * (c * p) - c * p,
                j == (k + f) * c + ch,
                (inv - 1) * (c * p) + (ch + (k + f) * c) == ((inv - 1) * p + (k + f)) * c + ch,
                (inv - 1) * p == inv * p - p,
                (inv - 1) * (c * p) == inv * (c * p) - c * p,
        ;
        assert(post.produced()[idx] == pre.produced()[idx]);
    }
}

/// Two consecutive native calls send what one call of their total size would:
/// the frame counts add up, and every frame of either call is the frame at its
/// position in the callback's data as it stands after the second call.
pub proof fn lemma_consecutive_calls<T: Copy>(
    a: OutputBridge<T>,
    b: OutputBridge<T>,
    c: OutputBridge<T>,
    n1: nat,
    n2: nat,
    first_before: Seq<T>,
    first_after: Seq<T>,
    second_before: Seq<T>,
    second_after: Seq<T>,
    fills0: Seq<Seq<T>>,
    fills1: Seq<Seq<T>>,
    fills2: Seq<Seq<T>>,
)
    requires
        output_step(a, b, n1, first_before, first_after, fills0, fills1),
        output_step(b, c, n2, second_before, second_after, fills1, fills2),
    ensures
        c.frames_out() == a.frames_out() + n1 + n2,
        fills0.len() <= fills2.len(),
        fills2.subrange(0, fills0.len() as int) == fills0,
        fills2.len() - fills0.len() == c.invocations() - a.invocations(),
        c.produced() == a.produced() + concat(new_blocks(fills0, fills2)),
        c.invocations() == blocks_for(a.frames_out() + n1 + n2, a.period()),
        forall|f: int, ch: int|
            0 <= f < n1 && 0 <= ch < a.channels() ==> #[trigger] first_after[planar_index(
                f,
                ch,
                n1 as int,
            )] == c.produced()[interleaved_index(a.frames_out() + f, ch, a.channels() as int)],
        forall|f: int, ch: int|
            0 <= f < n2 && 0 <= ch < a.channels() ==> #[trigger] second_after[planar_index(
                f,
                ch,
                n2 as int,
            )] == c.produced()[interleaved_index(
                a.frames_out() + n1 + f,
                ch,
                a.channels() as int,
            )],
{
    assert(fills2.subrange(0, fills0.len() as int) =~= fills0) by {
        assert(fills2.subrange(0, fills1.len() as int).subrange(0, fills0.len() as int) =~= fills2.subrange(0, fills0.len() as int));
    }
    assert(new_blocks(fills0, fills2) =~= new_blocks(fills0, fills1) + new_blocks(fills1, fills2)) by {
        assert(fills2.subrange(0, fills1.len() as int) == fills1);
    }
    lemma_concat_append(new_blocks(fills0, fills1), new_blocks(fills1, fills2));
    assert(c.produced() =~= a.produced() + concat(new_blocks(fills0, fills2)));
    assert forall|f: int, ch: int|
        0 <= f < n1 && 0 <= ch < a.channels() implies #[trigger] first_after[planar_index(
            f,
            ch,
            n1 as int,
        )] == c.produced()[interleaved_index(a.frames_out() + f, ch, a.channels() as int)] by {
        lemma_emitted_in_range(
            a.frames_out() + f,
            ch,
            b.channels as int,
            b.period as int,
            b.invocations@ as int,
            b.frames_out() as int,
        );
        let idx = interleaved_index(a.frames_out() + f, ch, a.channels() as int);
        assert(0 <= idx < b.produced().len());
        assert(c.produced().subrange(0, b.produced().len() as int)[idx] == c.produced()[idx]);
    }
}

} // verus!
