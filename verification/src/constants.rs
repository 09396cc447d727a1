//! Fixed measures of the page.

use vstd::prelude::*;

verus! {

/// Width of the area that content is laid out in, in pixels.
pub const CONTENT_AREA_WIDTH: i64 = 600;

/// Advance of one character at the medium font size, in pixels.
pub const CHAR_WIDTH: i64 = 8;

/// Height of one line at the medium font size, in pixels.
pub const CHAR_HEIGHT: i64 = 16;

} // verus!
