//! Strings indexed by grapheme cluster.
//!
//! Positions, slices and pattern matches are counted in user-perceived
//! characters, never in bytes or code points.

pub mod grapheme;
pub mod locator;
pub mod matching;
pub mod pattern;
pub mod string;
pub mod laws;
