//! A polyphonic trigger-playback engine: every trigger starts one more
//! playback of the loaded clip, and a mixing pass sums all the playbacks that
//! are under way into one clipped 16-bit buffer.

pub mod asset;
pub mod input;
pub mod loader;
pub mod mixer;
pub mod oneshot;
pub mod output;
pub mod sample;
pub mod track;
