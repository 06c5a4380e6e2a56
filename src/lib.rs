//! The verified core of a disk-to-real-time audio streamer: the playlist
//! timeline, fixed-size sample blocks and their channel-mapped filling, the
//! disk side's position and hand-over, the real-time side's rolling and seek
//! protocol, and the bookkeeping of the decoders and the resampler.

pub mod block;
pub mod disk;
pub mod file;
pub mod streamer;
pub mod timeline;
