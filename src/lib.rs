//! Frame-aggregating licence-plate recognition core: status-code taxonomy,
//! recognition options, colour-path selection, the text-buffer exchange
//! protocol, one-shot recognition and the multi-frame recognition session.

pub mod error;
pub mod options;
pub mod color;
pub mod geometry;
pub mod session;
pub mod exchange;
pub mod recognizer;
pub mod consensus;
