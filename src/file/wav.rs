//! Which WAV sample encodings a source can decode.
use vstd::prelude::*;

verus! {

/// A sample encoding that the WAV source decodes.
#[derive(Clone, Copy, Debug, PartialEq, Eq, Structural)]
pub enum WavFormat {
    /// IEEE float, 32 bits.
    Float32,
    /// Signed integer PCM, 16 bits.
    Pcm16,
}

/// The encoding of a WAV stream with the given sample kind and width, or
/// `None` where it is not supported (8-, 24- and 32-bit PCM among them).
pub fn wav_format(is_float: bool, bits_per_sample: u16) -> (r: Option<WavFormat>)
    ensures
        r == (if is_float && bits_per_sample == 32 {
            Some(WavFormat::Float32)
        } else if !is_float && bits_per_sample == 16 {
            Some(WavFormat::Pcm16)
        } else {
            None
        }),
{
    if is_float && bits_per_sample == 32 {
        Some(WavFormat::Float32)
    } else if !is_float && bits_per_sample == 16 {
        Some(WavFormat::Pcm16)
    } else {
        None
    }
}

/// The whole frames in `samples` interleaved samples of `channels` channels;
/// a trailing partial frame is not delivered.
pub fn whole_frames(samples: usize, channels: usize) -> (r: usize)
    requires
        0 < channels,
    ensures
        r == samples / channels,
        r * channels <= samples,
{
    proof {
        vstd::arithmetic::div_mod::lemma_fundamental_div_mod(samples as int, channels as int);
        vstd::arithmetic::div_mod::lemma_mod_pos_bound(samples as int, channels as int);
        let q = samples as int / channels as int;
        assert(q * channels <= samples) by (nonlinear_arith)
            requires
                samples == channels * q + samples as int % channels as int,
                0 <= samples as int % channels as int,
        ;
    }
    samples / channels
}

} // verus!
