//! Structural decoding of DOOM-style WAD archives.
//!
//! Every decoder in this crate is a pure function of the bytes it is given:
//! its contract names the record that comes out, or the error, for every
//! input.

pub mod wad;
