//! The disk side: the position of the stream on the timeline, the hand-over
//! of the consumer side after a seek, and the filling of one block from every
//! playlist entry that meets it.
use vstd::prelude::*;

use crate::block::{Block, maps_to};
use crate::file::{AudioFileBlocks, fill_channels};
use crate::timeline::{PlaylistEntry, active_entries, active_set, fill_position, spec_limit, spec_offset};

verus! {

/// Whether some entry of `playlist` active in the block at `current_frame`
/// may write frame `k` of output channel `j`.
pub open spec fn may_write<F>(playlist: Seq<PlaylistEntry<F>>, current_frame: int, blocksize: int, j: int, k: int) -> bool {
    exists|e: int| 0 <= e < playlist.len()
        && #[trigger] playlist[e].active_in(current_frame, current_frame + blocksize)
        && maps_to(playlist[e].channels@, j)
        && spec_offset(playlist[e].start as int, current_frame) <= k
        && k < spec_limit(playlist[e].end, current_frame, blocksize)
}

/// The playlists agree on everything but the state of their sources.
pub open spec fn same_layout<F>(a: Seq<PlaylistEntry<F>>, b: Seq<PlaylistEntry<F>>) -> bool {
    a.len() == b.len() && forall|e: int| 0 <= e < a.len() ==> {
        &&& (#[trigger] a[e]).start == b[e].start
        &&& a[e].end == b[e].end
        &&& a[e].channels@ == b[e].channels@
    }
}

/// Fills `block`, which starts at timeline frame `current_frame`, from every
/// playlist entry that meets it, in playlist order. Each source is first
/// positioned where the timeline asks for it (see `fill_position`). A frame
/// that no active entry reaches keeps its value; the shape is kept.
pub fn fill_block<S: Copy, F: AudioFileBlocks<S>>(
    playlist: &mut Vec<PlaylistEntry<F>>,
    block: &mut Block<S>,
    chunk: &mut Vec<Vec<S>>,
    current_frame: usize,
    seek_frame: usize,
    blocksize: usize,
) -> (r: Result<(), F::Error>)
    requires
        0 < blocksize,
        current_frame + blocksize <= usize::MAX,
        old(block).wf(old(block)@.len(), blocksize as nat),
        forall|e: int| 0 <= e < old(playlist).len() ==> (#[trigger] old(playlist)[e]).well_formed(old(block)@.len()),
    ensures
        active_set(old(playlist)@, current_frame as int, current_frame + blocksize) =~= Set::<int>::empty() ==> r is Ok,
        same_layout(old(playlist)@, final(playlist)@),
        final(block).wf(old(block)@.len(), blocksize as nat),
        forall|j: int, k: int| 0 <= j < old(block)@.len() && 0 <= k < blocksize
            && !may_write(old(playlist)@, current_frame as int, blocksize as int, j, k)
            ==> #[trigger] final(block)@[j][k] == old(block)@[j][k],
{
    let block_end = current_frame + blocksize;
    let active = active_entries(playlist, current_frame, block_end);
    if active.len() > 0 {
        assert(active_set(old(playlist)@, current_frame as int, block_end as int).contains(active[0] as int));
    }
    let mut a: usize = 0;
    while a < active.len()
        invariant
            0 < blocksize,
            block_end == current_frame + blocksize,
            a <= active.len(),
            active.len() > 0 ==> active_set(old(playlist)@, current_frame as int, block_end as int).contains(active[0] as int),
            forall|k: int| 0 <= k < active.len() ==> #[trigger] active[k] < old(playlist).len(),
            forall|k: int| 0 <= k < active.len() ==> old(playlist)[#[trigger] active[k] as int].active_in(current_frame as int, block_end as int),
            same_layout(old(playlist)@, playlist@),
            forall|e: int| 0 <= e < old(playlist).len() ==> (#[trigger] old(playlist)[e]).well_formed(old(block)@.len()),
            block.wf(old(block)@.len(), blocksize as nat),
            forall|j: int, k: int| 0 <= j < old(block)@.len() && 0 <= k < blocksize
                && !may_write(old(playlist)@, current_frame as int, blocksize as int, j, k)
                ==> #[trigger] block@[j][k] == old(block)@[j][k],
        decreases active.len() - a,
    {
        let idx = active[a];
        assert(old(playlist)[idx as int].active_in(current_frame as int, block_end as int));
        assert(playlist[idx as int].start == old(playlist)[idx as int].start);
        let pos = fill_position(playlist[idx].start, playlist[idx].end, current_frame, seek_frame, blocksize);
        let ghost before = block@;
        let entry = &mut playlist[idx];
        match pos.seek_to {
            Some(f) => {
                match entry.file.seek(f) {
                    Ok(()) => {},
                    Err(e) => return Err(e),
                }
            },
            None => {},
        }
        assert(old(playlist)[idx as int].well_formed(old(block)@.len()));
        let filled = fill_channels(&mut entry.file, chunk, &entry.channels, pos.limit, pos.offset, block);
        assert forall|j: int, k: int| 0 <= j < old(block)@.len() && 0 <= k < blocksize
            && !may_write(old(playlist)@, current_frame as int, blocksize as int, j, k)
            implies #[trigger] block@[j][k] == old(block)@[j][k] by {
            if !(k < pos.offset || pos.limit <= k || !maps_to(playlist[idx as int].channels@, j)) {
                assert(may_write(old(playlist)@, current_frame as int, blocksize as int, j, k));
            }
        }
        match filled {
            Ok(_) => {},
            Err(e) => return Err(e),
        }
        a += 1;
    }
    Ok(())
}

/// Once the block starts at or past the end of every entry, and every entry
/// has an end, no entry may write into it: the block stays as it was (zero).
pub proof fn lemma_past_all_ends_writes_nothing<F>(playlist: Seq<PlaylistEntry<F>>, current_frame: int, blocksize: int)
    requires
        forall|i: int| 0 <= i < playlist.len() ==> match #[trigger] playlist[i].end {
            None => false,
            Some(e) => e <= current_frame,
        },
    ensures
        forall|j: int, k: int| !#[trigger] may_write(playlist, current_frame, blocksize, j, k),
{
    assert forall|j: int, k: int| !#[trigger] may_write(playlist, current_frame, blocksize, j, k) by {
        if may_write(playlist, current_frame, blocksize, j, k) {
            let e = choose|e: int| 0 <= e < playlist.len()
                && #[trigger] playlist[e].active_in(current_frame, current_frame + blocksize)
                && maps_to(playlist[e].channels@, j)
                && spec_offset(playlist[e].start as int, current_frame) <= k
                && k < spec_limit(playlist[e].end, current_frame, blocksize);
            let _ = playlist[e].end;
        }
    }
}

/// The disk side's position on the timeline, and the consumer side while the
/// disk side holds it (after a seek, until enough is buffered).
pub struct DiskDriver<C> {
    consumer: Option<C>,
    current_frame: usize,
    seek_frame: usize,
    blocksize: usize,
    min_prebuffer_frames: usize,
}

impl<C> DiskDriver<C> {
    pub closed spec fn spec_consumer(&self) -> Option<C> {
        self.consumer
    }

    pub closed spec fn spec_current_frame(&self) -> nat {
        self.current_frame as nat
    }

    pub closed spec fn spec_seek_frame(&self) -> nat {
        self.seek_frame as nat
    }

    pub closed spec fn spec_blocksize(&self) -> nat {
        self.blocksize as nat
    }

    pub closed spec fn spec_min_prebuffer_frames(&self) -> nat {
        self.min_prebuffer_frames as nat
    }

    /// The stream has either produced nothing since the last seek, or at
    /// least one whole block.
    pub open spec fn wf(&self) -> bool {
        &&& 0 < self.spec_blocksize()
        &&& 0 < self.spec_min_prebuffer_frames()
        &&& self.spec_seek_frame() <= self.spec_current_frame()
        &&& (self.spec_current_frame() == self.spec_seek_frame()
            || self.spec_seek_frame() + self.spec_blocksize() <= self.spec_current_frame())
    }

    /// A disk side at timeline frame zero that holds the consumer side.
    pub fn new(consumer: C, blocksize: usize, min_prebuffer_frames: usize) -> (d: Self)
        requires
            0 < blocksize,
            0 < min_prebuffer_frames,
        ensures
            d.wf(),
            d.spec_consumer() == Some(consumer),
            d.spec_current_frame() == 0,
            d.spec_seek_frame() == 0,
            d.spec_blocksize() == blocksize,
            d.spec_min_prebuffer_frames() == min_prebuffer_frames,
    {
        DiskDriver { consumer: Some(consumer), current_frame: 0, seek_frame: 0, blocksize, min_prebuffer_frames }
    }

    pub fn current_frame(&self) -> (r: usize)
        ensures
            r == self.spec_current_frame(),
    {
        self.current_frame
    }

    pub fn seek_frame(&self) -> (r: usize)
        ensures
            r == self.spec_seek_frame(),
    {
        self.seek_frame
    }

    pub fn blocksize(&self) -> (r: usize)
        ensures
            r == self.spec_blocksize(),
    {
        self.blocksize
    }

    /// Takes over a seek request: the stream restarts at `frame` with the
    /// consumer side that came with the request. Hands back a consumer side
    /// that was still held, if any.
    pub fn absorb_seek(&mut self, frame: usize, consumer: C) -> (prev: Option<C>)
        requires
            old(self).wf(),
        ensures
            final(self).wf(),
            prev == old(self).spec_consumer(),
            final(self).spec_consumer() == Some(consumer),
            final(self).spec_current_frame() == frame,
            final(self).spec_seek_frame() == frame,
            final(self).spec_blocksize() == old(self).spec_blocksize(),
            final(self).spec_min_prebuffer_frames() == old(self).spec_min_prebuffer_frames(),
    {
        let prev = self.consumer.take();
        self.consumer = Some(consumer);
        self.current_frame = frame;
        self.seek_frame = frame;
        prev
    }

    /// The timeline end of the next block, or `None` where it would pass the
    /// last representable frame.
    pub fn block_end(&self) -> (r: Option<usize>)
        ensures
            match r {
                None => self.spec_current_frame() + self.spec_blocksize() > usize::MAX,
                Some(e) => e == self.spec_current_frame() + self.spec_blocksize(),
            },
    {
        self.current_frame.checked_add(self.blocksize)
    }

    /// Moves on by one block, once it has been published.
    pub fn advance(&mut self)
        requires
            old(self).wf(),
            old(self).spec_current_frame() + old(self).spec_blocksize() <= usize::MAX,
        ensures
            final(self).wf(),
            final(self).spec_current_frame() == old(self).spec_current_frame() + old(self).spec_blocksize(),
            final(self).spec_seek_frame() == old(self).spec_seek_frame(),
            final(self).spec_consumer() == old(self).spec_consumer(),
            final(self).spec_blocksize() == old(self).spec_blocksize(),
            final(self).spec_min_prebuffer_frames() == old(self).spec_min_prebuffer_frames(),
    {
        self.current_frame = self.current_frame + self.blocksize;
    }

    /// Once at least `min_prebuffer_frames` have been produced since the last
    /// seek, gives up the consumer side together with the seek frame. A
    /// hand-over always follows at least one published block.
    pub fn handoff(&mut self) -> (r: Option<(usize, C)>)
        requires
            old(self).wf(),
        ensures
            final(self).wf(),
            r is Some <==> (old(self).spec_consumer() is Some
                && old(self).spec_current_frame() - old(self).spec_seek_frame() >= old(self).spec_min_prebuffer_frames()),
            match r {
                None => final(self).spec_consumer() == old(self).spec_consumer(),
                Some((f, c)) => {
                    &&& f == old(self).spec_seek_frame()
                    &&& old(self).spec_consumer() == Some(c)
                    &&& final(self).spec_consumer() is None
                    &&& old(self).spec_seek_frame() + old(self).spec_blocksize() <= old(self).spec_current_frame()
                },
            },
            final(self).spec_current_frame() == old(self).spec_current_frame(),
            final(self).spec_seek_frame() == old(self).spec_seek_frame(),
            final(self).spec_blocksize() == old(self).spec_blocksize(),
            final(self).spec_min_prebuffer_frames() == old(self).spec_min_prebuffer_frames(),
    {
        if self.current_frame - self.seek_frame >= self.min_prebuffer_frames {
            match self.consumer.take() {
                Some(c) => Some((self.seek_frame, c)),
                None => None,
            }
        } else {
            None
        }
    }

    /// Takes back a consumer side whose hand-over could not be sent yet.
    pub fn reclaim(&mut self, consumer: C)
        requires
            old(self).wf(),
        ensures
            final(self).wf(),
            final(self).spec_consumer() == Some(consumer),
            final(self).spec_current_frame() == old(self).spec_current_frame(),
            final(self).spec_seek_frame() == old(self).spec_seek_frame(),
            final(self).spec_blocksize() == old(self).spec_blocksize(),
            final(self).spec_min_prebuffer_frames() == old(self).spec_min_prebuffer_frames(),
    {
        self.consumer = Some(consumer);
    }
}

} // verus!
