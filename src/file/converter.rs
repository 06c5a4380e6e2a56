//! The bookkeeping of the sample-rate converter that wraps a source: the
//! reported length, where a seek lands in the wrapped source, and the state
//! of the interleaved input staging buffer between calls of the kernel.
use vstd::prelude::*;

verus! {

/// An error code of the resampling kernel.
#[derive(Clone, Copy, Debug, PartialEq, Eq, Structural)]
pub struct LibSamplerateError(pub i32);

/// A status of zero is success; any other is the kernel's error code.
pub fn check_status(status: i32) -> (r: Result<(), LibSamplerateError>)
    ensures
        r == (if status == 0 { Ok(()) } else { Err(LibSamplerateError(status)) }),
{
    if status == 0 {
        Ok(())
    } else {
        Err(LibSamplerateError(status))
    }
}

/// `floor(a * b / c)`, or `usize::MAX` where that does not fit.
pub open spec fn scaled(a: int, b: int, c: int) -> int {
    if a * b / c > usize::MAX { usize::MAX as int } else { a * b / c }
}

fn scale(a: usize, b: usize, c: usize) -> (r: usize)
    requires
        0 < c,
    ensures
        r == scaled(a as int, b as int, c as int),
{
    assert(usize::MAX <= u64::MAX);
    assert((a as int) * (b as int) <= u128::MAX) by (nonlinear_arith)
        requires
            a <= u64::MAX,
            b <= u64::MAX,
    ;
    let p: u128 = (a as u128) * (b as u128);
    let q: u128 = p / (c as u128);
    if q > usize::MAX as u128 {
        usize::MAX
    } else {
        q as usize
    }
}

/// The length, at `rate_out`, of a source of `frames` frames at `rate_in`:
/// `floor(frames * rate_out / rate_in)`. The converter may deliver one
/// frame more at the tail.
pub fn resampled_frames(frames: usize, rate_in: usize, rate_out: usize) -> (r: usize)
    requires
        0 < rate_in,
    ensures
        r == scaled(frames as int, rate_out as int, rate_in as int),
{
    scale(frames, rate_out, rate_in)
}

/// Where the wrapped source at `rate_in` is positioned for output frame
/// `frame` at `rate_out`: `floor(frame * rate_in / rate_out)`.
pub fn source_frame(frame: usize, rate_in: usize, rate_out: usize) -> (r: usize)
    requires
        0 < rate_out,
    ensures
        r == scaled(frame as int, rate_in as int, rate_out as int),
{
    scale(frame, rate_in, rate_out)
}

/// The staging state of a converter: how many frames of input wait in the
/// interleaved input buffer, and whether the wrapped source has run out.
pub struct ConverterState {
    input_frames: usize,
    end_of_input: bool,
    buffer_frames: usize,
    channels: usize,
}

/// What the converter does after one run of the kernel.
#[derive(Clone, Copy, Debug, PartialEq, Eq, Structural)]
pub enum Produced {
    /// Hand out this many frames (zero: the converted stream has ended).
    Frames(usize),
    /// Nothing came out yet and input remains: refill and run again.
    Again,
}

impl ConverterState {
    pub closed spec fn spec_input_frames(&self) -> nat {
        self.input_frames as nat
    }

    pub closed spec fn spec_end_of_input(&self) -> bool {
        self.end_of_input
    }

    pub closed spec fn spec_buffer_frames(&self) -> nat {
        self.buffer_frames as nat
    }

    pub closed spec fn spec_channels(&self) -> nat {
        self.channels as nat
    }

    /// The waiting input fits the buffer, and the buffer's samples can be indexed.
    pub closed spec fn wf(&self) -> bool {
        &&& 0 < self.channels
        &&& self.input_frames <= self.buffer_frames
        &&& self.buffer_frames * self.channels <= usize::MAX
    }

    /// An empty staging buffer of `buffer_frames` frames of `channels` channels.
    pub fn new(buffer_frames: usize, channels: usize) -> (s: Self)
        requires
            0 < channels,
            buffer_frames * channels <= usize::MAX,
        ensures
            s.wf(),
            s.spec_input_frames() == 0,
            !s.spec_end_of_input(),
            s.spec_buffer_frames() == buffer_frames,
            s.spec_channels() == channels,
    {
        ConverterState { input_frames: 0, end_of_input: false, buffer_frames, channels }
    }

    pub fn input_frames(&self) -> (r: usize)
        ensures
            r == self.spec_input_frames(),
    {
        self.input_frames
    }

    pub fn end_of_input(&self) -> (r: bool)
        ensures
            r == self.spec_end_of_input(),
    {
        self.end_of_input
    }

    /// How many frames the wrapped source is asked for: the free tail of
    /// the input buffer.
    pub fn input_room(&self) -> (r: usize)
        requires
            self.wf(),
        ensures
            r == self.spec_buffer_frames() - self.spec_input_frames(),
    {
        self.buffer_frames - self.input_frames
    }

    /// The sample index in the input buffer where new input is written.
    pub fn input_start(&self) -> (r: usize)
        requires
            self.wf(),
        ensures
            r == self.spec_input_frames() * self.spec_channels(),
            r + (self.spec_buffer_frames() - self.spec_input_frames()) * self.spec_channels()
                == self.spec_buffer_frames() * self.spec_channels(),
    {
        proof {
            assert(self.input_frames * self.channels <= self.buffer_frames * self.channels) by (nonlinear_arith)
                requires
                    self.input_frames <= self.buffer_frames,
            ;
            assert(self.input_frames * self.channels + (self.buffer_frames - self.input_frames) * self.channels
                == self.buffer_frames * self.channels) by (nonlinear_arith);
        }
        self.input_frames * self.channels
    }

    /// Records what the wrapped source delivered: nothing means it has run out.
    pub fn record_input(&mut self, copied: usize)
        requires
            old(self).wf(),
            copied <= old(self).spec_buffer_frames() - old(self).spec_input_frames(),
        ensures
            final(self).wf(),
            final(self).spec_buffer_frames() == old(self).spec_buffer_frames(),
            final(self).spec_channels() == old(self).spec_channels(),
            copied == 0 ==> final(self).spec_end_of_input() && final(self).spec_input_frames() == old(self).spec_input_frames(),
            copied > 0 ==> final(self).spec_end_of_input() == old(self).spec_end_of_input()
                && final(self).spec_input_frames() == old(self).spec_input_frames() + copied,
    {
        if copied == 0 {
            self.end_of_input = true;
        } else {
            self.input_frames = self.input_frames + copied;
        }
    }

    /// How many frames the kernel may produce in one run: the output buffer
    /// holds as many frames as the input buffer, and the caller asked for
    /// `max_frames`.
    pub fn output_request(&self, max_frames: usize) -> (r: usize)
        ensures
            r == if self.spec_buffer_frames() < max_frames { self.spec_buffer_frames() } else { max_frames as nat },
    {
        if self.buffer_frames < max_frames {
            self.buffer_frames
        } else {
            max_frames
        }
    }

    /// Records a run of the kernel that consumed `used` input frames and
    /// generated `generated` output frames. Output is handed out as soon as
    /// there is some; with none, the stream has ended once all input is
    /// consumed and the source has run out, and otherwise the kernel runs
    /// again.
    pub fn record_process(&mut self, used: usize, generated: usize) -> (r: Produced)
        requires
            old(self).wf(),
            used <= old(self).spec_input_frames(),
        ensures
            final(self).wf(),
            final(self).spec_input_frames() == old(self).spec_input_frames() - used,
            final(self).spec_end_of_input() == old(self).spec_end_of_input(),
            final(self).spec_buffer_frames() == old(self).spec_buffer_frames(),
            final(self).spec_channels() == old(self).spec_channels(),
            r == if generated > 0 || (final(self).spec_input_frames() == 0 && old(self).spec_end_of_input()) {
                Produced::Frames(generated)
            } else {
                Produced::Again
            },
    {
        self.input_frames = self.input_frames - used;
        if generated > 0 || (self.input_frames == 0 && self.end_of_input) {
            Produced::Frames(generated)
        } else {
            Produced::Again
        }
    }

    /// Forgets waiting input after a seek of the wrapped source.
    pub fn reset(&mut self)
        requires
            old(self).wf(),
        ensures
            final(self).wf(),
            final(self).spec_input_frames() == 0,
            !final(self).spec_end_of_input(),
            final(self).spec_buffer_frames() == old(self).spec_buffer_frames(),
            final(self).spec_channels() == old(self).spec_channels(),
    {
        self.input_frames = 0;
        self.end_of_input = false;
    }
}

/// Moves the `remaining` samples that follow the first `used` ones to the
/// head of `buffer`; the rest of the buffer keeps its values.
pub fn compact<S: Copy>(buffer: &mut Vec<S>, used: usize, remaining: usize)
    requires
        used + remaining <= old(buffer).len(),
    ensures
        final(buffer).len() == old(buffer).len(),
        forall|k: int| 0 <= k < remaining ==> #[trigger] final(buffer)[k] == old(buffer)[k + used],
        forall|k: int| remaining <= k < old(buffer).len() ==> #[trigger] final(buffer)[k] == old(buffer)[k],
{
    let mut k: usize = 0;
    while k < remaining
        invariant
            k <= remaining,
            used + remaining <= old(buffer).len(),
            buffer.len() == old(buffer).len(),
            forall|x: int| 0 <= x < k ==> #[trigger] buffer[x] == old(buffer)[x + used],
            forall|x: int| k <= x < old(buffer).len() ==> #[trigger] buffer[x] == old(buffer)[x],
        decreases remaining - k,
    {
        let v = buffer[k + used];
        buffer.set(k, v);
        k += 1;
    }
}

} // verus!
