//! The playlist: where each source sits on the output timeline, which
//! entries take part in a block, and where in the block each one writes.
use vstd::prelude::*;

verus! {

/// One source placed on the output timeline.
///
/// `start` is the first timeline frame of the source, `end` the exclusive
/// timeline end (`None`: until the source runs out). `channels` maps each
/// input channel of the source to an output channel, or drops it.
pub struct PlaylistEntry<F> {
    pub start: usize,
    pub end: Option<usize>,
    pub file: F,
    pub channels: Vec<Option<usize>>,
}

/// Whether the span `[start, end)` meets the block window `[block_start, block_end)`.
pub open spec fn spans_window(start: int, end: Option<usize>, block_start: int, block_end: int) -> bool {
    start < block_end && match end {
        None => true,
        Some(e) => block_start < e,
    }
}

/// Every output channel named by a channel map is below `output_channels`.
pub open spec fn channel_map_fits(map: Seq<Option<usize>>, output_channels: nat) -> bool {
    forall|i: int| 0 <= i < map.len() ==> match #[trigger] map[i] {
        None => true,
        Some(j) => j < output_channels,
    }
}

impl<F> PlaylistEntry<F> {
    pub open spec fn active_in(&self, block_start: int, block_end: int) -> bool {
        spans_window(self.start as int, self.end, block_start, block_end)
    }

    /// `start` is not past `end` where both are given, and the channel map fits the output.
    pub open spec fn well_formed(&self, output_channels: nat) -> bool {
        (match self.end {
            None => true,
            Some(e) => self.start <= e,
        }) && channel_map_fits(self.channels@, output_channels)
    }

    /// Whether this entry takes part in the block `[block_start, block_end)`.
    pub fn is_active(&self, block_start: usize, block_end: usize) -> (r: bool)
        ensures
            r == self.active_in(block_start as int, block_end as int),
    {
        self.start < block_end && match self.end {
            None => true,
            Some(e) => block_start < e,
        }
    }
}

/// The indices of the entries of `playlist` that take part in the block
/// `[block_start, block_end)`, in playlist order.
pub open spec fn active_set<F>(playlist: Seq<PlaylistEntry<F>>, block_start: int, block_end: int) -> Set<int> {
    Set::new(|i: int| 0 <= i < playlist.len() && playlist[i].active_in(block_start, block_end))
}

/// The entries of `playlist` that meet the block `[block_start, block_end)`,
/// as indices in playlist order.
pub fn active_entries<F>(playlist: &Vec<PlaylistEntry<F>>, block_start: usize, block_end: usize) -> (r: Vec<usize>)
    ensures
        forall|a: int, b: int| 0 <= a < b < r.len() ==> r[a] < r[b],
        forall|k: int| 0 <= k < r.len() ==> #[trigger] r[k] < playlist.len(),
        forall|k: int| 0 <= k < r.len() ==> playlist[#[trigger] r[k] as int].active_in(block_start as int, block_end as int),
        forall|i: int| 0 <= i < playlist.len() && #[trigger] playlist[i].active_in(block_start as int, block_end as int)
            ==> exists|k: int| 0 <= k < r.len() && r[k] == i,
        r@.to_set().map(|i: usize| i as int) =~= active_set(playlist@, block_start as int, block_end as int),
{
    let mut r: Vec<usize> = Vec::new();
    let mut i: usize = 0;
    while i < playlist.len()
        invariant
            i <= playlist.len(),
            forall|a: int, b: int| 0 <= a < b < r.len() ==> r[a] < r[b],
            forall|k: int| 0 <= k < r.len() ==> #[trigger] r[k] < i,
            forall|k: int| 0 <= k < r.len() ==> playlist[#[trigger] r[k] as int].active_in(block_start as int, block_end as int),
            forall|j: int| 0 <= j < i && #[trigger] playlist[j].active_in(block_start as int, block_end as int)
                ==> exists|k: int| 0 <= k < r.len() && r[k] == j,
        decreases playlist.len() - i,
    {
        let ghost before = r@;
        if playlist[i].is_active(block_start, block_end) {
            r.push(i);
            assert(r[r.len() - 1] == i);
        }
        assert forall|j: int| 0 <= j < i + 1 && #[trigger] playlist[j].active_in(block_start as int, block_end as int)
            implies exists|k: int| 0 <= k < r.len() && r[k] == j by {
            if j < i {
                let k = choose|k: int| 0 <= k < before.len() && before[k] == j;
                assert(r[k] == j);
            } else {
                assert(r[r.len() - 1] == j);
            }
        }
        i += 1;
    }
    assert forall|x: int| #[trigger] active_set(playlist@, block_start as int, block_end as int).contains(x)
        implies r@.to_set().map(|i: usize| i as int).contains(x) by {
        let k = choose|k: int| 0 <= k < r.len() && r[k] == x;
        assert(r@.to_set().contains(r[k]));
    }
    r
}

/// Where an active entry writes into the block that starts at timeline frame
/// `current_frame`, and where its source must be positioned first.
pub struct FillPosition {
    /// First frame of the block that the entry writes.
    pub offset: usize,
    /// Frames of the block, counted from its start, that the entry may reach
    /// (its timeline end, or the block's end).
    pub limit: usize,
    /// `Some(f)`: the source is to be positioned at its own frame `f` before reading.
    pub seek_to: Option<usize>,
}

/// The block frame at which a source placed at `start` begins writing.
pub open spec fn spec_offset(start: int, current_frame: int) -> int {
    if start < current_frame { 0 } else { start - current_frame }
}

/// How many frames of the block the entry may reach: up to its end, at most the block.
pub open spec fn spec_limit(end: Option<usize>, current_frame: int, blocksize: int) -> int {
    match end {
        None => blocksize,
        Some(e) => if e - current_frame < blocksize { e - current_frame } else { blocksize },
    }
}

/// Where the source is to be positioned before it reads for this block.
///
/// A source that began before the block continues from the previous block,
/// except on the first block after a seek; a source that begins inside the
/// block starts from its beginning.
pub open spec fn spec_seek_to(start: int, current_frame: int, seek_frame: int) -> Option<int> {
    if start < current_frame {
        if current_frame == seek_frame { Some(current_frame - start) } else { None }
    } else {
        Some(0)
    }
}

/// Plans where an entry active in the block `[current_frame, current_frame + blocksize)`
/// writes, and whether its source is to be positioned first.
pub fn fill_position(
    start: usize,
    end: Option<usize>,
    current_frame: usize,
    seek_frame: usize,
    blocksize: usize,
) -> (r: FillPosition)
    requires
        0 < blocksize,
        current_frame + blocksize <= usize::MAX,
        spans_window(start as int, end, current_frame as int, current_frame + blocksize),
    ensures
        r.offset == spec_offset(start as int, current_frame as int),
        r.limit == spec_limit(end, current_frame as int, blocksize as int),
        r.offset < blocksize,
        r.limit <= blocksize,
        match r.seek_to {
            None => spec_seek_to(start as int, current_frame as int, seek_frame as int) is None,
            Some(f) => spec_seek_to(start as int, current_frame as int, seek_frame as int) == Some(f as int),
        },
{
    let offset: usize = if start < current_frame { 0 } else { start - current_frame };
    let limit: usize = match end {
        None => blocksize,
        Some(e) => if e - current_frame < blocksize { e - current_frame } else { blocksize },
    };
    let seek_to: Option<usize> = if start < current_frame {
        if current_frame == seek_frame { Some(current_frame - start) } else { None }
    } else {
        Some(0)
    };
    FillPosition { offset, limit, seek_to }
}

/// An entry whose end equals its start takes part in a block only where it
/// writes nothing there: its offset reaches its limit.
pub proof fn lemma_empty_entry_writes_nothing(start: int, current_frame: int, blocksize: int)
    requires
        0 <= start,
        0 <= current_frame,
        0 < blocksize,
        start <= usize::MAX,
        spans_window(start, Some(start as usize), current_frame, current_frame + blocksize),
    ensures
        spec_limit(Some(start as usize), current_frame, blocksize) <= spec_offset(start, current_frame),
{
}

/// Once the block starts at or past the end of every entry, and every entry
/// has an end, no entry takes part in the block.
pub proof fn lemma_past_all_ends<F>(playlist: Seq<PlaylistEntry<F>>, block_start: int, block_end: int)
    requires
        forall|i: int| 0 <= i < playlist.len() ==> match #[trigger] playlist[i].end {
            None => false,
            Some(e) => e <= block_start,
        },
    ensures
        active_set(playlist, block_start, block_end) =~= Set::<int>::empty(),
{
    assert forall|i: int| !#[trigger] active_set(playlist, block_start, block_end).contains(i) by {
        if 0 <= i < playlist.len() {
            let _ = playlist[i].end;
        }
    }
}

} // verus!
