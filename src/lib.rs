//! Timekeeping accuracy of watches: paired readings of a watch face and of a
//! real clock, the drift rate computed from two such readings, the history of
//! measures kept for each watch, and the summary table over a collection.

pub mod collection;
pub mod drift;
pub mod format;
pub mod input;
pub mod movement;
pub mod sample;
pub mod table;
pub mod watch;
