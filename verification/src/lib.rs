//! An in-memory music library: audio files are discovered in a directory
//! snapshot, their tags are read into uniform records, and the records are
//! assembled into an ordered Artist → Album → Disc → Track tree.

pub mod counter;
pub mod error;
pub mod gui;
pub mod library;
pub mod map_union;
pub mod model;
pub mod name_order;
pub mod numbers;
pub mod organize;
pub mod parse;
pub mod pipeline;
pub mod playback;
pub mod scan;
pub mod tags;
pub mod text;
