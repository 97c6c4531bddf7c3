//! Screen geometry for the rendering service.
//!
//! Rendering itself — borders, glyphs, escape sequences — is the caller's
//! business; the library only fixes the shape of the data handed to it: a
//! position on the screen, and the dimensions of the bordered card that
//! frames the clock face.

use vstd::prelude::*;

verus! {

/// Where and how large the card is drawn: its top-left corner and its size,
/// in terminal cells (1-based columns and rows).
#[derive(Clone, Copy, Debug, PartialEq, Eq, Structural)]
pub struct Dims {
    pub x: u16,
    pub y: u16,
    pub height: u16,
    pub width: u16,
}

/// A position on the screen, in terminal cells (1-based column and row).
#[derive(Clone, Copy, Debug, PartialEq, Eq, Structural)]
pub struct Position {
    pub x: u16,
    pub y: u16,
}

} // verus!
