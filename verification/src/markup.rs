//! The markup codec: the text format that stores albums and their songs,
//! its reader and its writer.

pub mod codec;
pub mod document;
pub mod escape;
pub mod laws;
pub mod line;
