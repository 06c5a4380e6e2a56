//! The capability that every audio source offers to the disk side, and the
//! channel-mapped fill that reads a source into a block.
use vstd::prelude::*;

use crate::block::{Block, channels_view, mapped, mapped_prefix, maps_to, splice};
use crate::timeline::channel_map_fits;
use vstd::arithmetic::div_mod::lemma_fundamental_div_mod_converse;

pub mod converter;
pub mod vorbis;
pub mod wav;

verus! {

/// What every audio source knows about itself, and how it is positioned.
pub trait AudioFileBasics {
    type Error;

    fn channels(&self) -> usize;

    fn frames(&self) -> usize;

    fn samplerate(&self) -> usize;

    /// Positions the next read at `frame`.
    fn seek(&mut self, frame: usize) -> Result<(), Self::Error>;
}

/// A source that decodes into per-channel runs of samples.
pub trait AudioFileBlocks<S>: AudioFileBasics {
    /// Decodes up to `max_frames` frames into `chunk`, one vector per input
    /// channel, and returns how many frames it decoded; zero at the end.
    fn next_block(&mut self, max_frames: usize, chunk: &mut Vec<Vec<S>>) -> Result<usize, Self::Error>;
}

/// Channel-mapped writes leave alone every channel that the map does not
/// name and every frame outside the written range, and keep the lengths.
pub proof fn lemma_mapped_frame<S>(
    chs: Seq<Seq<S>>,
    map: Seq<Option<usize>>,
    chunk: Seq<Seq<S>>,
    offset: int,
    n: int,
    count: nat,
)
    requires
        count <= map.len(),
        channel_map_fits(map, chs.len()),
    ensures
        mapped_prefix(chs, map, chunk, offset, n, count).len() == chs.len(),
        forall|j: int| 0 <= j < chs.len() ==> (#[trigger] mapped_prefix(chs, map, chunk, offset, n, count)[j]).len() == chs[j].len(),
        forall|j: int, k: int| 0 <= j < chs.len() && 0 <= k < chs[j].len() && (k < offset || offset + n <= k || !maps_to(map, j))
            ==> #[trigger] mapped_prefix(chs, map, chunk, offset, n, count)[j][k] == chs[j][k],
    decreases count,
{
    if count > 0 {
        lemma_mapped_frame(chs, map, chunk, offset, n, (count - 1) as nat);
        let prev = mapped_prefix(chs, map, chunk, offset, n, (count - 1) as nat);
        let i = count - 1;
        match map[i] {
            None => {},
            Some(t) => {
                assert(t < chs.len());
                assert forall|j: int, k: int| 0 <= j < chs.len() && 0 <= k < chs[j].len() && (k < offset || offset + n <= k || !maps_to(map, j))
                    implies #[trigger] mapped_prefix(chs, map, chunk, offset, n, count)[j][k] == chs[j][k] by {
                    if j == t {
                        if !(k < offset || offset + n <= k) {
                            assert(maps_to(map, j));
                        }
                        assert(splice(prev[j], chunk[i], offset, n)[k] == prev[j][k]);
                    }
                }
            },
        }
    }
}

/// The channels of `after` agree with those of `before` wherever `map`
/// cannot have written: outside `[lo, hi)`, and on channels it does not name.
pub open spec fn written_only_within<S>(before: Seq<Seq<S>>, after: Seq<Seq<S>>, map: Seq<Option<usize>>, lo: int, hi: int) -> bool {
    &&& after.len() == before.len()
    &&& forall|j: int| 0 <= j < before.len() ==> (#[trigger] after[j]).len() == before[j].len()
    &&& forall|j: int, k: int| 0 <= j < before.len() && 0 <= k < before[j].len() && (k < lo || hi <= k || !maps_to(map, j))
            ==> #[trigger] after[j][k] == before[j][k]
}

/// The smallest of `bound` and the lengths of those of the first `count`
/// channels of `chunk` that `map` sends somewhere.
pub open spec fn min_mapped_len<S>(map: Seq<Option<usize>>, chunk: Seq<Seq<S>>, bound: int, count: nat) -> int
    decreases count,
{
    if count == 0 {
        bound
    } else {
        let b = min_mapped_len(map, chunk, bound, (count - 1) as nat);
        if map[count - 1] is Some && chunk[count - 1].len() < b {
            chunk[count - 1].len() as int
        } else {
            b
        }
    }
}

/// How many frames of a decoded chunk are written through `map` into `room`
/// free frames of a block: the decoded count, cut to the room and to the
/// shortest channel that the map uses; none where the chunk lacks a channel
/// that the map names.
pub open spec fn usable_frames<S>(map: Seq<Option<usize>>, chunk: Seq<Seq<S>>, frames: int, room: int) -> int {
    if map.len() > chunk.len() {
        0
    } else {
        min_mapped_len(map, chunk, if frames < room { frames } else { room }, map.len())
    }
}

proof fn lemma_min_mapped_len<S>(map: Seq<Option<usize>>, chunk: Seq<Seq<S>>, bound: int, count: nat)
    requires
        count <= map.len(),
        count <= chunk.len(),
        0 <= bound,
    ensures
        0 <= min_mapped_len(map, chunk, bound, count) <= bound,
        forall|i: int| 0 <= i < count && (#[trigger] map[i]) is Some ==> min_mapped_len(map, chunk, bound, count) <= chunk[i].len(),
    decreases count,
{
    if count > 0 {
        lemma_min_mapped_len(map, chunk, bound, (count - 1) as nat);
    }
}

/// A block after a write that changed nothing is the block before it.
proof fn lemma_mapped_nothing<S>(chs: Seq<Seq<S>>, map: Seq<Option<usize>>, chunk: Seq<Seq<S>>, offset: int)
    requires
        channel_map_fits(map, chs.len()),
    ensures
        mapped(chs, map, chunk, offset, 0) == chs,
{
    lemma_mapped_frame(chs, map, chunk, offset, 0, map.len());
    let m = mapped(chs, map, chunk, offset, 0);
    assert forall|j: int| 0 <= j < chs.len() implies m[j] == chs[j] by {
        assert(m[j] =~= chs[j]);
    }
    assert(m =~= chs);
}

/// Writes one decoded chunk of `frames` frames into `block` through `map`,
/// from block frame `offset` on and not past `limit`. Returns how many frames
/// were written: `usable_frames` of the chunk.
pub fn write_chunk<S: Copy>(
    block: &mut Block<S>,
    map: &Vec<Option<usize>>,
    chunk: &Vec<Vec<S>>,
    frames: usize,
    offset: usize,
    limit: usize,
) -> (n: usize)
    requires
        channel_map_fits(map@, old(block)@.len()),
        offset <= limit,
        forall|j: int| 0 <= j < old(block)@.len() ==> limit <= (#[trigger] old(block)@[j]).len(),
    ensures
        n == usable_frames(map@, channels_view(chunk@), frames as int, limit - offset),
        n <= limit - offset,
        final(block)@ == mapped(old(block)@, map@, channels_view(chunk@), offset as int, n as int),
{
    let ghost cv = channels_view(chunk@);
    if map.len() > chunk.len() {
        proof {
            lemma_mapped_nothing(block@, map@, cv, offset as int);
        }
        return 0;
    }
    let room = limit - offset;
    let bound: usize = if frames < room { frames } else { room };
    let mut n: usize = bound;
    let mut i: usize = 0;
    while i < map.len()
        invariant
            i <= map.len(),
            map.len() <= chunk.len(),
            cv == channels_view(chunk@),
            n == min_mapped_len(map@, cv, bound as int, i as nat),
        decreases map.len() - i,
    {
        if map[i].is_some() && chunk[i].len() < n {
            n = chunk[i].len();
        }
        i += 1;
    }
    proof {
        lemma_min_mapped_len(map@, cv, bound as int, map@.len());
    }
    block.write_mapped(map, chunk, offset, n);
    n
}

/// Reads `file` into `block` through `channel_map`, from block frame `offset`
/// up to block frame `limit`, chunk by chunk (see `write_chunk`), until the
/// source delivers nothing usable or the range is full. Returns how many
/// frames were filled; frames past them, and everything outside the mapped
/// channels, keep their values. Where the range is empty the source is not
/// read and nothing changes.
pub fn fill_channels<S: Copy, F: AudioFileBlocks<S>>(
    file: &mut F,
    chunk: &mut Vec<Vec<S>>,
    channel_map: &Vec<Option<usize>>,
    limit: usize,
    offset: usize,
    block: &mut Block<S>,
) -> (r: Result<usize, F::Error>)
    requires
        channel_map_fits(channel_map@, old(block)@.len()),
        forall|j: int| 0 <= j < old(block)@.len() ==> limit <= (#[trigger] old(block)@[j]).len(),
    ensures
        limit <= offset ==> r == Ok::<usize, F::Error>(0) && final(block)@ == old(block)@,
        written_only_within(old(block)@, final(block)@, channel_map@, offset as int, limit as int),
        match r {
            Ok(filled) => {
                &&& offset < limit ==> offset + filled <= limit
                &&& written_only_within(old(block)@, final(block)@, channel_map@, offset as int, offset + filled)
            },
            Err(_) => true,
        },
{
    if limit <= offset {
        return Ok(0);
    }
    let mut offset_now: usize = offset;
    while offset_now < limit
        invariant
            channel_map_fits(channel_map@, old(block)@.len()),
            forall|j: int| 0 <= j < old(block)@.len() ==> limit <= (#[trigger] old(block)@[j]).len(),
            offset <= offset_now <= limit,
            written_only_within(old(block)@, block@, channel_map@, offset as int, offset_now as int),
        decreases limit - offset_now,
    {
        let frames = match file.next_block(limit - offset_now, chunk) {
            Ok(frames) => frames,
            Err(e) => return Err(e),
        };
        let ghost before = block@;
        let n = write_chunk(block, channel_map, chunk, frames, offset_now, limit);
        proof {
            lemma_mapped_frame(before, channel_map@, channels_view(chunk@), offset_now as int, n as int, channel_map@.len());
        }
        if n == 0 {
            break;
        }
        offset_now = offset_now + n;
    }
    Ok(offset_now - offset)
}

/// Sample `q` of an interleaved run built from `chunk`: channel `q % channels`
/// of frame `q / channels`.
pub open spec fn interleaved_at<S>(chunk: Seq<Seq<S>>, channels: int, q: int) -> S {
    chunk[q % channels][q / channels]
}

/// Writes the first `frames` frames of the per-channel `chunk` into
/// `buffer` from `start` on, frame by frame, channel by channel within a
/// frame. Nothing else in `buffer` changes.
pub fn interleave<S: Copy>(chunk: &Vec<Vec<S>>, channels: usize, frames: usize, buffer: &mut Vec<S>, start: usize)
    requires
        0 < channels,
        channels <= chunk.len(),
        forall|c: int| 0 <= c < channels ==> frames <= (#[trigger] chunk[c]).len(),
        start + frames * channels <= old(buffer).len(),
    ensures
        final(buffer).len() == old(buffer).len(),
        forall|q: int| start <= q < start + frames * channels
            ==> #[trigger] final(buffer)[q] == interleaved_at(channels_view(chunk@), channels as int, q - start),
        forall|q: int| 0 <= q < old(buffer).len() && !(start <= q < start + frames * channels)
            ==> #[trigger] final(buffer)[q] == old(buffer)[q],
{
    let total = frames * channels;
    let mut k: usize = 0;
    let mut f: usize = 0;
    let mut c: usize = 0;
    while k < total
        invariant
            0 < channels,
            channels <= chunk.len(),
            forall|c: int| 0 <= c < channels ==> frames <= (#[trigger] chunk[c]).len(),
            total == frames * channels,
            start + total <= old(buffer).len(),
            buffer.len() == old(buffer).len(),
            k <= total,
            c < channels,
            k == f * channels + c,
            forall|q: int| start <= q < start + k
                ==> #[trigger] buffer[q] == interleaved_at(channels_view(chunk@), channels as int, q - start),
            forall|q: int| 0 <= q < old(buffer).len() && !(start <= q < start + k)
                ==> #[trigger] buffer[q] == old(buffer)[q],
        decreases total - k,
    {
        proof {
            lemma_fundamental_div_mod_converse(k as int, channels as int, f as int, c as int);
            assert(f < frames) by (nonlinear_arith)
                requires
                    k == f * channels + c,
                    k < frames * channels,
                    0 <= c,
                    0 < channels,
            ;
        }
        let v = chunk[c][f];
        buffer.set(start + k, v);
        k += 1;
        c += 1;
        if c == channels {
            c = 0;
            f += 1;
            assert(k == f * channels + c) by (nonlinear_arith)
                requires
                    k == (f - 1) * channels + channels,
                    c == 0,
            ;
        }
    }
}

/// Writes the first `frames` frames of the interleaved `buffer` run that
/// begins at `start` into the per-channel `chunk`. Samples of `chunk` past
/// `frames`, and channels past `channels`, keep their values.
pub fn deinterleave<S: Copy>(buffer: &Vec<S>, start: usize, frames: usize, channels: usize, chunk: &mut Vec<Vec<S>>)
    requires
        channels <= old(chunk).len(),
        forall|c: int| 0 <= c < channels ==> frames <= (#[trigger] old(chunk)[c]).len(),
        start + frames * channels <= buffer.len(),
    ensures
        final(chunk).len() == old(chunk).len(),
        forall|c: int| 0 <= c < old(chunk).len() ==> (#[trigger] final(chunk)[c]).len() == old(chunk)[c].len(),
        forall|c: int, f: int| 0 <= c < channels && 0 <= f < frames
            ==> #[trigger] final(chunk)[c][f] == buffer[start + f * channels + c],
        forall|c: int, f: int| 0 <= c < old(chunk).len() && 0 <= f < old(chunk)[c].len() && !(c < channels && f < frames)
            ==> #[trigger] final(chunk)[c][f] == old(chunk)[c][f],
{
    let mut c: usize = 0;
    while c < channels
        invariant
            c <= channels,
            channels <= old(chunk).len(),
            forall|x: int| 0 <= x < channels ==> frames <= (#[trigger] old(chunk)[x]).len(),
            start + frames * channels <= buffer.len(),
            chunk.len() == old(chunk).len(),
            forall|x: int| 0 <= x < old(chunk).len() ==> (#[trigger] chunk[x]).len() == old(chunk)[x].len(),
            forall|x: int, f: int| 0 <= x < c && 0 <= f < frames
                ==> #[trigger] chunk[x][f] == buffer[start + f * channels + x],
            forall|x: int, f: int| 0 <= x < old(chunk).len() && 0 <= f < old(chunk)[x].len() && !(x < c && f < frames)
                ==> #[trigger] chunk[x][f] == old(chunk)[x][f],
        decreases channels - c,
    {
        let mut f: usize = 0;
        while f < frames
            invariant
                c < channels,
                f <= frames,
                channels <= old(chunk).len(),
                forall|x: int| 0 <= x < channels ==> frames <= (#[trigger] old(chunk)[x]).len(),
                start + frames * channels <= buffer.len(),
                chunk.len() == old(chunk).len(),
                forall|x: int| 0 <= x < old(chunk).len() ==> (#[trigger] chunk[x]).len() == old(chunk)[x].len(),
                forall|x: int, y: int| 0 <= x < c && 0 <= y < frames
                    ==> #[trigger] chunk[x][y] == buffer[start + y * channels + x],
                forall|y: int| 0 <= y < f ==> #[trigger] chunk[c as int][y] == buffer[start + y * channels + c],
                forall|x: int, y: int| 0 <= x < old(chunk).len() && 0 <= y < old(chunk)[x].len()
                    && !(x < c && y < frames) && !(x == c && y < f)
                    ==> #[trigger] chunk[x][y] == old(chunk)[x][y],
            decreases frames - f,
        {
            assert(f * channels + c < frames * channels) by (nonlinear_arith)
                requires
                    f < frames,
                    c < channels,
            ;
            let v = buffer[start + f * channels + c];
            chunk[c].set(f, v);
            f += 1;
        }
        c += 1;
    }
}

/// The smallest of `bound` and the lengths of the first `count` channels of `chunk`.
pub open spec fn min_len<S>(chunk: Seq<Seq<S>>, bound: int, count: nat) -> int
    decreases count,
{
    if count == 0 {
        bound
    } else {
        let b = min_len(chunk, bound, (count - 1) as nat);
        if chunk[count - 1].len() < b { chunk[count - 1].len() as int } else { b }
    }
}

/// How many frames of a decoded chunk of `frames` frames are interleaved
/// into room for `max_frames`: the decoded count, cut to the room and to the
/// shortest of the `channels` channels; none where the chunk has fewer
/// channels.
pub open spec fn interleavable<S>(chunk: Seq<Seq<S>>, channels: int, frames: int, max_frames: int) -> int {
    if chunk.len() < channels {
        0
    } else {
        min_len(chunk, if frames < max_frames { frames } else { max_frames }, channels as nat)
    }
}

proof fn lemma_min_len<S>(chunk: Seq<Seq<S>>, bound: int, count: nat)
    requires
        count <= chunk.len(),
        0 <= bound,
    ensures
        0 <= min_len(chunk, bound, count) <= bound,
        forall|c: int| 0 <= c < count ==> min_len(chunk, bound, count) <= (#[trigger] chunk[c]).len(),
    decreases count,
{
    if count > 0 {
        lemma_min_len(chunk, bound, (count - 1) as nat);
    }
}

/// Writes one decoded chunk of `frames` frames interleaved into `buffer` from
/// `start` on, with room for `max_frames` frames. Returns how many frames were
/// written: `interleavable` of the chunk. Nothing else in `buffer` changes.
pub fn interleave_chunk<S: Copy>(
    chunk: &Vec<Vec<S>>,
    channels: usize,
    frames: usize,
    max_frames: usize,
    buffer: &mut Vec<S>,
    start: usize,
) -> (n: usize)
    requires
        0 < channels,
        start + max_frames * channels <= old(buffer).len(),
    ensures
        n == interleavable(channels_view(chunk@), channels as int, frames as int, max_frames as int),
        n <= max_frames,
        final(buffer).len() == old(buffer).len(),
        forall|q: int| start <= q < start + n * channels
            ==> #[trigger] final(buffer)[q] == interleaved_at(channels_view(chunk@), channels as int, q - start),
        forall|q: int| 0 <= q < old(buffer).len() && !(start <= q < start + n * channels)
            ==> #[trigger] final(buffer)[q] == old(buffer)[q],
{
    let ghost cv = channels_view(chunk@);
    if chunk.len() < channels {
        return 0;
    }
    let bound: usize = if frames < max_frames { frames } else { max_frames };
    let mut n: usize = bound;
    let mut c: usize = 0;
    while c < channels
        invariant
            c <= channels,
            channels <= chunk.len(),
            cv == channels_view(chunk@),
            n == min_len(cv, bound as int, c as nat),
        decreases channels - c,
    {
        if chunk[c].len() < n {
            n = chunk[c].len();
        }
        c += 1;
    }
    proof {
        lemma_min_len(cv, bound as int, channels as nat);
        assert forall|x: int| 0 <= x < channels implies n <= (#[trigger] chunk[x]).len() by {
            assert(cv[x] == chunk[x]@);
        }
    }
    assert(n * channels <= max_frames * channels) by (nonlinear_arith)
        requires
            n <= max_frames,
    ;
    interleave(chunk, channels, n, buffer, start);
    n
}

/// Decodes up to `max_frames` frames of `file` and writes them interleaved
/// into `buffer` from `start` on, through `chunk` (see `interleave_chunk`).
/// Returns how many frames were written; zero at the end of the source.
/// Nothing else in `buffer` changes.
pub fn copy_block_to_interleaved<S: Copy, F: AudioFileBlocks<S>>(
    file: &mut F,
    chunk: &mut Vec<Vec<S>>,
    channels: usize,
    max_frames: usize,
    buffer: &mut Vec<S>,
    start: usize,
) -> (r: Result<usize, F::Error>)
    requires
        0 < channels,
        start + max_frames * channels <= old(buffer).len(),
    ensures
        final(buffer).len() == old(buffer).len(),
        match r {
            Ok(n) => {
                &&& n <= max_frames
                &&& exists|frames: int| 0 <= frames && n == interleavable(channels_view(final(chunk)@), channels as int, frames, max_frames as int)
                &&& forall|q: int| start <= q < start + n * channels
                    ==> #[trigger] final(buffer)[q] == interleaved_at(channels_view(final(chunk)@), channels as int, q - start)
                &&& forall|q: int| 0 <= q < old(buffer).len() && !(start <= q < start + n * channels)
                    ==> #[trigger] final(buffer)[q] == old(buffer)[q]
            },
            Err(_) => final(buffer)@ == old(buffer)@,
        },
{
    let frames = match file.next_block(max_frames, chunk) {
        Ok(frames) => frames,
        Err(e) => return Err(e),
    };
    let n = interleave_chunk(chunk, channels, frames, max_frames, buffer, start);
    Ok(n)
}

} // verus!
