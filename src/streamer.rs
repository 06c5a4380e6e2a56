//! The real-time side of the stream: what `get_data` delivers on each call,
//! the fade on rolling transitions, and the non-blocking seek protocol that
//! hands the consumer side to the disk side and takes it back.
use vstd::prelude::*;

verus! {

/// How a block is scaled on its way out.
#[derive(Clone, Copy, Debug, PartialEq, Eq, Structural)]
pub enum Fade {
    /// Linear ramp up: sample `i` gets gain `(i + 1) / blocksize`.
    In,
    /// Linear ramp down: sample `i` gets gain `(blocksize - i) / blocksize`.
    Out,
    /// Straight copy.
    Straight,
}

/// What one `get_data` call writes into the caller's buffers.
#[derive(Clone, Copy, Debug, PartialEq, Eq, Structural)]
pub enum Output {
    /// Zeros, and success: the stream is paused and was paused.
    Silence,
    /// The next filled block with the given fade, or zeros and failure when
    /// no block is ready.
    Copy(Fade),
    /// Zeros, and failure: no consumer side is held.
    Underrun,
}

/// What follows the copy in a `get_data` call.
#[derive(Clone, Copy, Debug, PartialEq, Eq, Structural)]
pub enum Followup {
    /// Return the result of the copy.
    Nothing,
    /// A seek was pending but the stream is still rolling: it is dropped and
    /// the call fails.
    SeekRefused,
    /// The stream is now paused: issue the pending seek, then return the
    /// result of the copy.
    Seek(usize),
}

/// One step of the seek protocol, as seen by the caller.
pub enum SeekStep<C> {
    /// The stream is rolling: the seek waits for the next `get_data`, which fades out first.
    Deferred,
    /// No consumer side is held: try to receive one from the disk side and
    /// call `seek_with_ready` with what came.
    PollReady,
    /// Send this request, with the consumer side, to the disk side.
    Send(usize, C),
    /// The disk side had already buffered the requested frame: the stream is ready there.
    Buffered,
    /// Nothing came from the disk side yet.
    NotReady,
}

impl<C> SeekStep<C> {
    /// Whether the seek call succeeds: only when the stream is already buffered there.
    pub fn succeeded(&self) -> (r: bool)
        ensures
            r <==> self is Buffered,
    {
        match self {
            SeekStep::Buffered => true,
            _ => false,
        }
    }
}

/// What `get_data` does for a given rolling state before and now, and
/// whether the consumer side is held.
pub open spec fn spec_output(previously: bool, rolling: bool, holds_consumer: bool) -> Output {
    if !rolling && !previously {
        Output::Silence
    } else if holds_consumer {
        Output::Copy(spec_fade(previously, rolling))
    } else {
        Output::Underrun
    }
}

/// The fade for a transition between rolling states.
pub open spec fn spec_fade(previously: bool, rolling: bool) -> Fade {
    if rolling && !previously {
        Fade::In
    } else if !rolling && previously {
        Fade::Out
    } else {
        Fade::Straight
    }
}

/// The gain of sample `i` of a block of `blocksize`, as numerator and denominator.
pub open spec fn spec_gain(fade: Fade, i: int, blocksize: int) -> (int, int) {
    match fade {
        Fade::In => (i + 1, blocksize),
        Fade::Out => (blocksize - i, blocksize),
        Fade::Straight => (1, 1),
    }
}

/// The gain of sample `i` in a block of `blocksize` under `fade`, as a
/// numerator and a denominator.
pub fn fade_gain(fade: Fade, i: usize, blocksize: usize) -> (r: (usize, usize))
    requires
        i < blocksize,
    ensures
        r.0 as int == spec_gain(fade, i as int, blocksize as int).0,
        r.1 as int == spec_gain(fade, i as int, blocksize as int).1,
        0 < r.0 <= r.1,
{
    match fade {
        Fade::In => (i + 1, blocksize),
        Fade::Out => (blocksize - i, blocksize),
        Fade::Straight => (1, 1),
    }
}

/// The real-time side's own state: the consumer side while it is held, the
/// rolling state of the previous call, and a seek that waits for a fade-out.
pub struct StreamerState<C> {
    consumer: Option<C>,
    previously_rolling: bool,
    pending_seek: Option<usize>,
    blocksize: usize,
    channels: usize,
}

impl<C> StreamerState<C> {
    pub closed spec fn spec_consumer(&self) -> Option<C> {
        self.consumer
    }

    pub closed spec fn spec_previously_rolling(&self) -> bool {
        self.previously_rolling
    }

    pub closed spec fn spec_pending_seek(&self) -> Option<usize> {
        self.pending_seek
    }

    pub closed spec fn spec_blocksize(&self) -> nat {
        self.blocksize as nat
    }

    pub closed spec fn spec_channels(&self) -> nat {
        self.channels as nat
    }

    /// A seek waits for a fade-out only while the stream was rolling.
    pub open spec fn wf(&self) -> bool {
        self.spec_pending_seek() is Some ==> self.spec_previously_rolling()
    }

    /// A paused stream that holds no consumer side: the disk side has it
    /// until it has buffered from frame zero.
    pub fn new(blocksize: usize, channels: usize) -> (s: Self)
        ensures
            s.wf(),
            s.spec_consumer() is None,
            !s.spec_previously_rolling(),
            s.spec_pending_seek() is None,
            s.spec_blocksize() == blocksize,
            s.spec_channels() == channels,
    {
        StreamerState { consumer: None, previously_rolling: false, pending_seek: None, blocksize, channels }
    }

    pub fn channels(&self) -> (r: usize)
        ensures
            r == self.spec_channels(),
    {
        self.channels
    }

    pub fn blocksize(&self) -> (r: usize)
        ensures
            r == self.spec_blocksize(),
    {
        self.blocksize
    }

    /// The consumer side, while it is held.
    pub fn consumer(&self) -> (r: Option<&C>)
        ensures
            r is Some <==> self.spec_consumer() is Some,
            r is Some ==> self.spec_consumer() == Some(*r->Some_0),
    {
        self.consumer.as_ref()
    }

    /// What a `get_data(rolling)` call writes into the caller's buffers.
    /// A paused stream that was paused delivers silence with success.
    pub fn plan_output(&self, rolling: bool) -> (r: Output)
        ensures
            r == spec_output(self.spec_previously_rolling(), rolling, self.spec_consumer() is Some),
    {
        let previously = self.previously_rolling;
        if !rolling && !previously {
            Output::Silence
        } else if self.consumer.is_some() {
            let fade = if rolling && !previously {
                Fade::In
            } else if !rolling && previously {
                Fade::Out
            } else {
                Fade::Straight
            };
            Output::Copy(fade)
        } else {
            Output::Underrun
        }
    }

    /// Ends a `get_data(rolling)` call: records the rolling state, and takes
    /// up a seek that waited for the fade-out.
    pub fn finish_get_data(&mut self, rolling: bool) -> (r: Followup)
        ensures
            final(self).wf(),
            final(self).spec_previously_rolling() == rolling,
            final(self).spec_pending_seek() is None,
            final(self).spec_consumer() == old(self).spec_consumer(),
            final(self).spec_blocksize() == old(self).spec_blocksize(),
            final(self).spec_channels() == old(self).spec_channels(),
            r == match old(self).spec_pending_seek() {
                None => Followup::Nothing,
                Some(f) => if rolling { Followup::SeekRefused } else { Followup::Seek(f) },
            },
    {
        self.previously_rolling = rolling;
        match self.pending_seek.take() {
            None => Followup::Nothing,
            Some(f) => if rolling { Followup::SeekRefused } else { Followup::Seek(f) },
        }
    }

    /// Starts `seek(frame)`. While rolling the seek is put off until the next
    /// `get_data` has faded out; otherwise a held consumer side goes to the
    /// disk side with the request, and without one the caller polls for it.
    pub fn seek_request(&mut self, frame: usize) -> (r: SeekStep<C>)
        ensures
            old(self).wf() ==> final(self).wf(),
            final(self).spec_previously_rolling() == old(self).spec_previously_rolling(),
            final(self).spec_blocksize() == old(self).spec_blocksize(),
            final(self).spec_channels() == old(self).spec_channels(),
            old(self).spec_previously_rolling() ==> {
                &&& r is Deferred
                &&& final(self).spec_pending_seek() == Some(frame)
                &&& final(self).spec_consumer() == old(self).spec_consumer()
            },
            !old(self).spec_previously_rolling() ==> {
                &&& final(self).spec_pending_seek() == old(self).spec_pending_seek()
                &&& final(self).spec_consumer() is None
                &&& match old(self).spec_consumer() {
                    None => r is PollReady,
                    Some(c) => r == SeekStep::Send(frame, c),
                }
            },
    {
        if self.previously_rolling {
            self.pending_seek = Some(frame);
            return SeekStep::Deferred;
        }
        match self.consumer.take() {
            None => SeekStep::PollReady,
            Some(c) => SeekStep::Send(frame, c),
        }
    }

    /// Finishes `seek(frame)` with what the disk side sent, if anything: a
    /// consumer side buffered at `frame` is kept and the seek succeeds at
    /// once, with no request sent; one buffered elsewhere goes back with the
    /// request.
    pub fn seek_with_ready(&mut self, frame: usize, ready: Option<(usize, C)>) -> (r: SeekStep<C>)
        requires
            !old(self).spec_previously_rolling(),
            old(self).spec_consumer() is None,
        ensures
            old(self).wf() ==> final(self).wf(),
            final(self).spec_previously_rolling() == old(self).spec_previously_rolling(),
            final(self).spec_pending_seek() == old(self).spec_pending_seek(),
            final(self).spec_blocksize() == old(self).spec_blocksize(),
            final(self).spec_channels() == old(self).spec_channels(),
            match ready {
                None => r is NotReady && final(self).spec_consumer() is None,
                Some((f, c)) => if f == frame {
                    r is Buffered && final(self).spec_consumer() == Some(c)
                } else {
                    r == SeekStep::Send(frame, c) && final(self).spec_consumer() is None
                },
            },
    {
        match ready {
            None => SeekStep::NotReady,
            Some((f, c)) => {
                if f == frame {
                    self.consumer = Some(c);
                    SeekStep::Buffered
                } else {
                    SeekStep::Send(frame, c)
                }
            },
        }
    }
}

/// Once a seek has succeeded at once on a paused stream, the next rolling
/// call copies the first buffered block with a fade-in, and no seek follows it.
pub proof fn lemma_rolling_after_buffered_seek<C>(s: StreamerState<C>)
    requires
        s.wf(),
        !s.spec_previously_rolling(),
        s.spec_consumer() is Some,
    ensures
        spec_output(s.spec_previously_rolling(), true, s.spec_consumer() is Some) == Output::Copy(Fade::In),
        s.spec_pending_seek() is None,
{
}

} // verus!
