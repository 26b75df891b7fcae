//! Batch mastering of audio albums: the metadata model of albums and
//! songs, the markup format that stores them, the editing session that
//! fills them in, and the orchestrator that drives the encoding of every
//! song.

pub mod decimal;
pub mod editing;
pub mod markup;
pub mod mastering;
pub mod model;
pub mod orchestrator;
pub mod preview;
pub mod session;
pub mod text;
