//! Download orchestration for a music library: a queue of album and song
//! requests, a single drain loop that takes them in order, a bounded pool of
//! track pipelines per album, and cooperative cancellation.
//!
//! Everything here is a state machine on plain values. The host program owns
//! the threads, the processes and the network; it calls these functions under
//! its locks and hands back what the outside world answered.

pub mod playback;
pub mod text;
pub mod model;
pub mod engine;
pub mod pipeline;
pub mod laws;
pub mod plan;
pub mod metadata;
pub mod discography;
pub mod paths;
