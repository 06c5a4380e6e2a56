//! Fixed-size sample blocks that circulate between the disk side and the
//! real-time side, and the channel-mapped writes that fill them.
use vstd::prelude::*;

use crate::timeline::channel_map_fits;

verus! {

/// `dst` with `n` samples of `src` written from position `offset` on.
pub open spec fn splice<S>(dst: Seq<S>, src: Seq<S>, offset: int, n: int) -> Seq<S> {
    Seq::new(dst.len(), |k: int| if offset <= k < offset + n { src[k - offset] } else { dst[k] })
}

/// The channels `chs` after the first `count` input channels of `chunk` were
/// written through `map`, each from `offset` on for `n` frames, in order.
pub open spec fn mapped_prefix<S>(
    chs: Seq<Seq<S>>,
    map: Seq<Option<usize>>,
    chunk: Seq<Seq<S>>,
    offset: int,
    n: int,
    count: nat,
) -> Seq<Seq<S>>
    decreases count,
{
    if count == 0 {
        chs
    } else {
        let prev = mapped_prefix(chs, map, chunk, offset, n, (count - 1) as nat);
        match map[count - 1] {
            None => prev,
            Some(j) => prev.update(j as int, splice(prev[j as int], chunk[count - 1], offset, n)),
        }
    }
}

/// The channels `chs` after every input channel of `chunk` was written through `map`.
pub open spec fn mapped<S>(chs: Seq<Seq<S>>, map: Seq<Option<usize>>, chunk: Seq<Seq<S>>, offset: int, n: int) -> Seq<Seq<S>> {
    mapped_prefix(chs, map, chunk, offset, n, map.len())
}

/// Whether `map` sends some input channel to output channel `j`.
pub open spec fn maps_to(map: Seq<Option<usize>>, j: int) -> bool {
    exists|i: int| 0 <= i < map.len() && map[i] == Some(j as usize)
}

/// The per-channel view of a list of sample vectors.
pub open spec fn channels_view<S>(chs: Seq<Vec<S>>) -> Seq<Seq<S>> {
    Seq::new(chs.len(), |j: int| chs[j]@)
}

/// `chs` has `channels` channels of `frames` samples each.
pub open spec fn has_shape<S>(chs: Seq<Seq<S>>, channels: nat, frames: nat) -> bool {
    chs.len() == channels && forall|j: int| 0 <= j < chs.len() ==> (#[trigger] chs[j]).len() == frames
}

/// Every sample of `chs` is `value`.
pub open spec fn all_equal<S>(chs: Seq<Seq<S>>, value: S) -> bool {
    forall|j: int, k: int| 0 <= j < chs.len() && 0 <= k < chs[j].len() ==> #[trigger] chs[j][k] == value
}

/// A rectangle of samples, one run of `frames` samples per channel.
pub struct Block<S> {
    pub channels: Vec<Vec<S>>,
}

impl<S> Block<S> {
    pub open spec fn view(&self) -> Seq<Seq<S>> {
        channels_view(self.channels@)
    }

    pub open spec fn wf(&self, channels: nat, frames: nat) -> bool {
        has_shape(self.view(), channels, frames)
    }
}

/// Writes `n` samples of `src` into `dst` from position `offset` on.
fn copy_range<S: Copy>(src: &Vec<S>, dst: &mut Vec<S>, offset: usize, n: usize)
    requires
        n <= src.len(),
        offset + n <= old(dst).len(),
    ensures
        final(dst)@ == splice(old(dst)@, src@, offset as int, n as int),
{
    let mut i: usize = 0;
    while i < n
        invariant
            i <= n,
            n <= src.len(),
            offset + n <= old(dst).len(),
            dst.len() == old(dst).len(),
            forall|k: int| 0 <= k < dst.len() ==> dst[k] == if offset <= k < offset + i { src[k - offset] } else { old(dst)[k] },
        decreases n - i,
    {
        let v = src[i];
        dst.set(offset + i, v);
        i += 1;
    }
    assert(dst@ =~= splice(old(dst)@, src@, offset as int, n as int));
}

impl<S: Copy> Block<S> {
    /// A block of `channels` channels of `frames` samples, each `zero`.
    pub fn new(frames: usize, channels: usize, zero: S) -> (b: Block<S>)
        ensures
            b.wf(channels as nat, frames as nat),
            all_equal(b@, zero),
    {
        let mut chs: Vec<Vec<S>> = Vec::new();
        let mut j: usize = 0;
        while j < channels
            invariant
                j <= channels,
                has_shape(channels_view(chs@), j as nat, frames as nat),
                all_equal(channels_view(chs@), zero),
            decreases channels - j,
        {
            let mut ch: Vec<S> = Vec::new();
            let mut k: usize = 0;
            while k < frames
                invariant
                    k <= frames,
                    ch.len() == k,
                    forall|x: int| 0 <= x < k ==> ch[x] == zero,
                decreases frames - k,
            {
                ch.push(zero);
                k += 1;
            }
            let ghost before = chs@;
            chs.push(ch);
            assert(channels_view(chs@) =~= channels_view(before).push(ch@));
            j += 1;
        }
        Block { channels: chs }
    }

    /// Sets every sample to `value`, keeping the shape.
    pub fn fill(&mut self, value: S)
        ensures
            final(self)@.len() == old(self)@.len(),
            forall|j: int| 0 <= j < old(self)@.len() ==> (#[trigger] final(self)@[j]).len() == old(self)@[j].len(),
            all_equal(final(self)@, value),
    {
        let n = self.channels.len();
        let mut j: usize = 0;
        while j < n
            invariant
                j <= n,
                n == old(self).channels.len(),
                self.channels.len() == n,
                forall|x: int| 0 <= x < n ==> (#[trigger] self.channels[x]).len() == old(self).channels[x].len(),
                forall|x: int, k: int| 0 <= x < j && 0 <= k < self.channels[x].len() ==> #[trigger] self.channels[x][k] == value,
            decreases n - j,
        {
            let len = self.channels[j].len();
            let mut k: usize = 0;
            while k < len
                invariant
                    j < n,
                    k <= len,
                    n == old(self).channels.len(),
                    self.channels.len() == n,
                    len == self.channels[j as int].len(),
                    forall|x: int| 0 <= x < n ==> (#[trigger] self.channels[x]).len() == old(self).channels[x].len(),
                    forall|x: int, y: int| 0 <= x < j && 0 <= y < self.channels[x].len() ==> #[trigger] self.channels[x][y] == value,
                    forall|y: int| 0 <= y < k ==> #[trigger] self.channels[j as int][y] == value,
                decreases len - k,
            {
                self.channels[j].set(k, value);
                k += 1;
            }
            j += 1;
        }
    }

    /// For each input channel `i` of `chunk` that `map` sends to an output
    /// channel `j`, writes its first `n` samples into channel `j` from
    /// `offset` on. Later input channels win where two share an output.
    pub fn write_mapped(&mut self, map: &Vec<Option<usize>>, chunk: &Vec<Vec<S>>, offset: usize, n: usize)
        requires
            channel_map_fits(map@, old(self)@.len()),
            map.len() <= chunk.len(),
            forall|i: int| 0 <= i < map.len() && (#[trigger] map[i]) is Some ==> n <= chunk[i].len(),
            forall|j: int| 0 <= j < old(self)@.len() ==> offset + n <= (#[trigger] old(self)@[j]).len(),
        ensures
            final(self)@ == mapped(old(self)@, map@, channels_view(chunk@), offset as int, n as int),
    {
        let mut i: usize = 0;
        while i < map.len()
            invariant
                i <= map.len(),
                channel_map_fits(map@, old(self)@.len()),
                map.len() <= chunk.len(),
                forall|i: int| 0 <= i < map.len() && (#[trigger] map[i]) is Some ==> n <= chunk[i].len(),
                self@.len() == old(self)@.len(),
                forall|j: int| 0 <= j < self@.len() ==> (#[trigger] self@[j]).len() == old(self)@[j].len(),
                forall|j: int| 0 <= j < old(self)@.len() ==> offset + n <= (#[trigger] old(self)@[j]).len(),
                self@ == mapped_prefix(old(self)@, map@, channels_view(chunk@), offset as int, n as int, i as nat),
            decreases map.len() - i,
        {
            let ghost before = self@;
            match map[i] {
                None => {},
                Some(j) => {
                    assert(map[i as int] is Some);
                    assert(j < old(self)@.len());
                    assert(self@[j as int].len() == old(self)@[j as int].len());
                    assert(offset + n <= old(self)@[j as int].len());
                    assert(n <= chunk[i as int].len());
                    copy_range(&chunk[i], &mut self.channels[j], offset, n);
                },
            }
            assert(self@ =~= mapped_prefix(old(self)@, map@, channels_view(chunk@), offset as int, n as int, (i + 1) as nat));
            i += 1;
        }
    }
}

/// `capacity` blocks of `channels` channels of `frames` samples, every sample `zero`.
pub fn make_pool<S: Copy>(capacity: usize, frames: usize, channels: usize, zero: S) -> (pool: Vec<Block<S>>)
    ensures
        pool.len() == capacity,
        forall|b: int| 0 <= b < capacity ==> (#[trigger] pool[b]).wf(channels as nat, frames as nat) && all_equal(pool[b]@, zero),
{
    let mut pool: Vec<Block<S>> = Vec::new();
    let mut b: usize = 0;
    while b < capacity
        invariant
            b <= capacity,
            pool.len() == b,
            forall|x: int| 0 <= x < b ==> (#[trigger] pool[x]).wf(channels as nat, frames as nat) && all_equal(pool[x]@, zero),
        decreases capacity - b,
    {
        pool.push(Block::new(frames, channels, zero));
        b += 1;
    }
    pool
}

/// Two writes into one channel: where both reach, the later one's samples stand.
pub proof fn lemma_later_write_wins<S>(dst: Seq<S>, first: Seq<S>, o1: int, n1: int, second: Seq<S>, o2: int, n2: int, k: int)
    requires
        0 <= k < dst.len(),
        o1 <= k < o1 + n1,
        o2 <= k < o2 + n2,
    ensures
        splice(splice(dst, first, o1, n1), second, o2, n2)[k] == second[k - o2],
{
}

} // verus!
