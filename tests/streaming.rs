use std::collections::VecDeque;

use disk_streaming::block::{make_pool, Block};
use disk_streaming::disk::{fill_block, DiskDriver};
use disk_streaming::file::{copy_block_to_interleaved, fill_channels, AudioFileBasics, AudioFileBlocks};
use disk_streaming::streamer::{fade_gain, Followup, Output, SeekStep, StreamerState};
use disk_streaming::timeline::PlaylistEntry;

/// A source that yields `frames` frames of a constant value on every channel.
struct ConstSource {
    value: f32,
    channels: usize,
    frames: usize,
    pos: usize,
}

impl ConstSource {
    fn new(value: f32, channels: usize, frames: usize) -> ConstSource {
        ConstSource { value, channels, frames, pos: 0 }
    }
}

impl AudioFileBasics for ConstSource {
    type Error = String;

    fn channels(&self) -> usize {
        self.channels
    }

    fn frames(&self) -> usize {
        self.frames
    }

    fn samplerate(&self) -> usize {
        44_100
    }

    fn seek(&mut self, frame: usize) -> Result<(), String> {
        self.pos = frame;
        Ok(())
    }
}

impl AudioFileBlocks<f32> for ConstSource {
    fn next_block(&mut self, max_frames: usize, chunk: &mut Vec<Vec<f32>>) -> Result<usize, String> {
        let n = max_frames.min(self.frames.saturating_sub(self.pos));
        chunk.resize(self.channels, Vec::new());
        for ch in chunk.iter_mut() {
            ch.clear();
            ch.resize(n, self.value);
        }
        self.pos += n;
        Ok(n)
    }
}

fn entry(start: usize, end: Option<usize>, source: ConstSource, map: Vec<Option<usize>>) -> PlaylistEntry<ConstSource> {
    PlaylistEntry { start, end, file: source, channels: map }
}

/// Both sides of the stream, driven in turn from one thread.
struct Sim {
    playlist: Vec<PlaylistEntry<ConstSource>>,
    disk: DiskDriver<u8>,
    rt: StreamerState<u8>,
    data: VecDeque<Block<f32>>,
    recycling: VecDeque<Block<f32>>,
    ready: Option<(usize, u8)>,
    seek_msg: Option<(usize, u8)>,
    chunk: Vec<Vec<f32>>,
    blocksize: usize,
    channels: usize,
}

impl Sim {
    fn new(playlist: Vec<PlaylistEntry<ConstSource>>, blocksize: usize, channels: usize, capacity: usize, min_frames: usize) -> Sim {
        Sim {
            playlist,
            disk: DiskDriver::new(7u8, blocksize, min_frames),
            rt: StreamerState::new(blocksize, channels),
            data: VecDeque::new(),
            recycling: make_pool(capacity, blocksize, channels, 0.0f32).into_iter().collect(),
            ready: None,
            seek_msg: None,
            chunk: Vec::new(),
            blocksize,
            channels,
        }
    }

    /// One turn of the disk loop; false when no empty block was available.
    fn disk_step(&mut self) -> bool {
        if let Some((frame, side)) = self.seek_msg.take() {
            while let Some(b) = self.data.pop_front() {
                self.recycling.push_back(b);
            }
            self.disk.absorb_seek(frame, side);
        }
        let mut block = match self.recycling.pop_front() {
            Some(b) => b,
            None => return false,
        };
        block.fill(0.0);
        let current = self.disk.current_frame();
        let seek = self.disk.seek_frame();
        fill_block(&mut self.playlist, &mut block, &mut self.chunk, current, seek, self.blocksize).unwrap();
        self.data.push_back(block);
        self.disk.advance();
        if self.ready.is_none() {
            if let Some(msg) = self.disk.handoff() {
                self.ready = Some(msg);
            }
        }
        true
    }

    fn run_disk(&mut self, turns: usize) {
        for _ in 0..turns {
            if !self.disk_step() {
                break;
            }
        }
    }

    fn seek(&mut self, frame: usize) -> bool {
        let step = match self.rt.seek_request(frame) {
            SeekStep::PollReady => {
                let ready = self.ready.take();
                self.rt.seek_with_ready(frame, ready)
            }
            other => other,
        };
        let ok = step.succeeded();
        if let SeekStep::Send(f, side) = step {
            self.seek_msg = Some((f, side));
        }
        ok
    }

    fn get_data(&mut self, rolling: bool) -> (Vec<Vec<f32>>, bool) {
        let mut out = vec![vec![0.0f32; self.blocksize]; self.channels];
        let result = match self.rt.plan_output(rolling) {
            Output::Silence => true,
            Output::Underrun => false,
            Output::Copy(fade) => match self.data.pop_front() {
                None => false,
                Some(b) => {
                    for (target, source) in out.iter_mut().zip(b.channels.iter()) {
                        for i in 0..self.blocksize {
                            let (num, den) = fade_gain(fade, i, self.blocksize);
                            target[i] = source[i] * num as f32 / den as f32;
                        }
                    }
                    self.recycling.push_back(b);
                    true
                }
            },
        };
        match self.rt.finish_get_data(rolling) {
            Followup::Nothing => (out, result),
            Followup::SeekRefused => (out, false),
            Followup::Seek(f) => {
                let _ = self.seek(f);
                (out, result)
            }
        }
    }

    fn seek_until_ready(&mut self, frame: usize) {
        for _ in 0..100 {
            if self.seek(frame) {
                return;
            }
            self.run_disk(4);
        }
        panic!("stream never became ready");
    }
}

fn zeros(channels: usize, blocksize: usize) -> Vec<Vec<f32>> {
    vec![vec![0.0f32; blocksize]; channels]
}

#[test]
fn silent_pass_through() {
    let mut sim = Sim::new(Vec::new(), 4, 2, 4, 8);
    sim.seek_until_ready(0);
    assert_eq!(sim.get_data(true), (zeros(2, 4), true));
    sim.run_disk(4);
    assert_eq!(sim.get_data(false), (zeros(2, 4), true));
}

#[test]
fn single_mono_source_identity_rate() {
    let playlist = vec![entry(0, None, ConstSource::new(0.5, 1, 1000), vec![Some(0)])];
    let mut sim = Sim::new(playlist, 4, 1, 4, 8);
    sim.seek_until_ready(0);
    assert_eq!(sim.get_data(true), (vec![vec![0.125, 0.25, 0.375, 0.5]], true));
    assert_eq!(sim.get_data(true), (vec![vec![0.5, 0.5, 0.5, 0.5]], true));
}

#[test]
fn offset_start() {
    let playlist = vec![entry(2, None, ConstSource::new(0.5, 1, 1000), vec![Some(0)])];
    let mut sim = Sim::new(playlist, 4, 1, 4, 8);
    sim.seek_until_ready(0);
    assert_eq!(sim.get_data(true), (vec![vec![0.0, 0.0, 0.375, 0.5]], true));
}

#[test]
fn seek_while_paused() {
    let playlist = vec![entry(0, None, ConstSource::new(0.5, 1, 1000), vec![Some(0)])];
    let mut sim = Sim::new(playlist, 4, 1, 4, 8);
    sim.seek_until_ready(0);
    for _ in 0..10 {
        assert!(sim.get_data(true).1);
        sim.run_disk(1);
    }
    assert_eq!(sim.get_data(false), (vec![vec![0.5, 0.375, 0.25, 0.125]], true));
    assert!(!sim.seek(0));
    sim.seek_until_ready(0);
    assert_eq!(sim.get_data(true), (vec![vec![0.125, 0.25, 0.375, 0.5]], true));
}

#[test]
fn seek_while_rolling() {
    let playlist = vec![entry(0, None, ConstSource::new(0.5, 1, 10_000), vec![Some(0)])];
    let mut sim = Sim::new(playlist, 4, 1, 4, 8);
    sim.seek_until_ready(0);
    assert!(sim.get_data(true).1);
    assert!(!sim.seek(1000));
    let (faded, ok) = sim.get_data(false);
    assert!(ok);
    assert_eq!(faded, vec![vec![0.5, 0.375, 0.25, 0.125]]);
    // the seek went out with the consumer side: nothing can be read until it is back
    assert_eq!(sim.get_data(true), (zeros(1, 4), false));
}

#[test]
fn seek_while_rolling_is_refused_if_still_rolling() {
    let playlist = vec![entry(0, None, ConstSource::new(0.5, 1, 10_000), vec![Some(0)])];
    let mut sim = Sim::new(playlist, 4, 1, 4, 8);
    sim.seek_until_ready(0);
    assert!(sim.get_data(true).1);
    assert!(!sim.seek(1000));
    let (_, ok) = sim.get_data(true);
    assert!(!ok);
}

#[test]
fn underrun_while_disk_stalls() {
    let playlist = vec![entry(0, None, ConstSource::new(0.5, 1, 1000), vec![Some(0)])];
    let mut sim = Sim::new(playlist, 4, 1, 4, 8);
    assert!(!sim.seek(0));
    assert_eq!(sim.get_data(true), (zeros(1, 4), false));
    assert_eq!(sim.get_data(true), (zeros(1, 4), false));
    assert_eq!(sim.get_data(false), (zeros(1, 4), false));
    sim.run_disk(4);
    assert!(sim.seek(0));
    assert_eq!(sim.get_data(true), (vec![vec![0.125, 0.25, 0.375, 0.5]], true));
}

#[test]
fn paused_output_is_zero() {
    let playlist = vec![entry(0, None, ConstSource::new(0.5, 1, 1000), vec![Some(0)])];
    let mut sim = Sim::new(playlist, 4, 1, 4, 8);
    sim.seek_until_ready(0);
    assert_eq!(sim.get_data(false), (zeros(1, 4), true));
}

#[test]
fn seek_is_idempotent_when_buffered() {
    let playlist = vec![entry(0, None, ConstSource::new(0.5, 1, 1000), vec![Some(0)])];
    let mut sim = Sim::new(playlist, 4, 1, 4, 8);
    sim.run_disk(4);
    assert!(sim.seek(0));
    assert!(sim.seek_msg.is_none());
}

#[test]
fn reading_past_all_ends_yields_zero() {
    let playlist = vec![
        entry(0, Some(4), ConstSource::new(0.5, 1, 1000), vec![Some(0)]),
        entry(2, Some(6), ConstSource::new(0.25, 1, 1000), vec![Some(0)]),
    ];
    let mut sim = Sim::new(playlist, 4, 1, 4, 8);
    sim.seek_until_ready(0);
    sim.get_data(true);
    assert_eq!(sim.get_data(true), (vec![vec![0.25, 0.25, 0.0, 0.0]], true));
    sim.run_disk(2);
    assert_eq!(sim.get_data(true), (zeros(1, 4), true));
}

fn one_block(mut playlist: Vec<PlaylistEntry<ConstSource>>, channels: usize, current: usize) -> Vec<Vec<f32>> {
    let mut block = Block::new(4, channels, 0.0f32);
    let mut chunk = Vec::new();
    fill_block(&mut playlist, &mut block, &mut chunk, current, current, 4).unwrap();
    block.channels
}

#[test]
fn empty_entry_contributes_nothing() {
    let playlist = vec![entry(2, Some(2), ConstSource::new(0.5, 1, 1000), vec![Some(0)])];
    assert_eq!(one_block(playlist, 1, 0), vec![vec![0.0; 4]]);
}

#[test]
fn short_source_leaves_zero_tail() {
    let playlist = vec![entry(0, Some(100), ConstSource::new(0.5, 1, 6), vec![Some(0)])];
    let mut playlist = playlist;
    let mut chunk = Vec::new();
    let mut block = Block::new(4, 1, 0.0f32);
    fill_block(&mut playlist, &mut block, &mut chunk, 0, 0, 4).unwrap();
    block.fill(0.0);
    fill_block(&mut playlist, &mut block, &mut chunk, 4, 0, 4).unwrap();
    assert_eq!(block.channels, vec![vec![0.5, 0.5, 0.0, 0.0]]);
}

#[test]
fn overlapping_entries_last_one_wins() {
    let playlist = vec![
        entry(0, None, ConstSource::new(0.5, 1, 1000), vec![Some(0)]),
        entry(2, None, ConstSource::new(0.25, 2, 1000), vec![Some(0), Some(1)]),
    ];
    assert_eq!(one_block(playlist, 2, 0), vec![vec![0.5, 0.5, 0.25, 0.25], vec![0.0, 0.0, 0.25, 0.25]]);
}

#[test]
fn dropped_input_channel_is_not_written() {
    let playlist = vec![entry(0, None, ConstSource::new(0.5, 2, 1000), vec![None, Some(1)])];
    assert_eq!(one_block(playlist, 2, 0), vec![vec![0.0; 4], vec![0.5; 4]]);
}

#[test]
fn blocks_keep_their_shape() {
    let pool = make_pool(3, 5, 2, 0.0f32);
    assert_eq!(pool.len(), 3);
    for b in &pool {
        assert_eq!(b.channels.len(), 2);
        assert!(b.channels.iter().all(|c| c.len() == 5 && c.iter().all(|&x| x == 0.0)));
    }
    let playlist = vec![entry(0, None, ConstSource::new(0.5, 1, 1000), vec![Some(1)])];
    let mut playlist = playlist;
    let mut block = Block::new(5, 2, 0.0f32);
    fill_block(&mut playlist, &mut block, &mut Vec::new(), 0, 0, 5).unwrap();
    assert!(block.channels.iter().all(|c| c.len() == 5));
}

#[test]
fn consecutive_rolling_blocks_follow_the_timeline() {
    let playlist = vec![entry(6, None, ConstSource::new(0.5, 1, 1000), vec![Some(0)])];
    let mut sim = Sim::new(playlist, 4, 1, 4, 8);
    sim.seek_until_ready(0);
    assert_eq!(sim.get_data(true), (vec![vec![0.0; 4]], true));
    assert_eq!(sim.get_data(true), (vec![vec![0.0, 0.0, 0.5, 0.5]], true));
}

#[test]
fn fill_channels_counts_what_the_source_delivered() {
    let mut source = ConstSource::new(0.5, 1, 3);
    let mut block = Block::new(8, 1, 0.0f32);
    let filled = fill_channels(&mut source, &mut Vec::new(), &vec![Some(0)], 8, 2, &mut block).unwrap();
    assert_eq!(filled, 3);
    assert_eq!(block.channels, vec![vec![0.0, 0.0, 0.5, 0.5, 0.5, 0.0, 0.0, 0.0]]);
}

#[test]
fn fill_channels_with_empty_range_reads_nothing() {
    let mut source = ConstSource::new(0.5, 1, 3);
    let mut block = Block::new(4, 1, 0.0f32);
    assert_eq!(fill_channels(&mut source, &mut Vec::new(), &vec![Some(0)], 2, 2, &mut block).unwrap(), 0);
    assert_eq!(source.pos, 0);
    assert_eq!(block.channels, vec![vec![0.0; 4]]);
}

#[test]
fn copy_to_interleaved_returns_delivered_frames() {
    let mut source = ConstSource::new(0.25, 2, 3);
    let mut buffer = vec![0.0f32; 10];
    let n = copy_block_to_interleaved(&mut source, &mut Vec::new(), 2, 5, &mut buffer, 0).unwrap();
    assert_eq!(n, 3);
    assert_eq!(buffer, vec![0.25, 0.25, 0.25, 0.25, 0.25, 0.25, 0.0, 0.0, 0.0, 0.0]);
    assert_eq!(copy_block_to_interleaved(&mut source, &mut Vec::new(), 2, 5, &mut buffer, 0).unwrap(), 0);
}
