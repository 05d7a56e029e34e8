//! Playback-timing buffer for decoded video.
//!
//! A bounded, time-ordered ring of decoded-frame metadata decouples decoding
//! from presentation, and an audio/video clock pair decides whether a frame is
//! shown, held or dropped. Times are whole microseconds (frame records, the
//! presentation clock) or whole milliseconds (the sync clock); frame rates are
//! in thousandths of a frame per second.

pub mod frame;
pub mod buffer;
pub mod sync;

pub use frame::{BufferState, BufferStats, FrameInfo};
pub use buffer::FrameBuffer;
pub use sync::AVSync;
