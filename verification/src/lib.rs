//! Builds VBF flash container files: a text header describing the software
//! part, followed by the binary image, its checksum and an optional
//! verification block table.

pub mod digest;
pub mod encode;
pub mod json_source;
pub mod laws;
pub mod script;
pub mod vbf;
