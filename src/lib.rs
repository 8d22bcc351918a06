//! Art-Net DMX512 frames: building a universe frame, writing channel values
//! and serialising it to the exact on-wire byte layout, plus the sequence
//! numbering that a controller applies to the frames it sends.

pub mod controller;
pub mod package;
