//! Shared numeric constants: the color handles used by the column
//! descriptors and the display configuration.

use vstd::prelude::*;

verus! {

/// Color handle type.
pub type Color = i16;

/// Maximum number of playlist columns.
pub const MAX_NUM_COLUMNS: usize = 10;

/// The handle of an unresolved or default color.
pub const COLOR_DEFAULT: Color = -1;

// The fixed 8-color vocabulary, under the classic terminal numbering.
pub const COLOR_BLACK: Color = 0;
pub const COLOR_RED: Color = 1;
pub const COLOR_GREEN: Color = 2;
pub const COLOR_YELLOW: Color = 3;
pub const COLOR_BLUE: Color = 4;
pub const COLOR_MAGENTA: Color = 5;
pub const COLOR_CYAN: Color = 6;
pub const COLOR_WHITE: Color = 7;

} // verus!
