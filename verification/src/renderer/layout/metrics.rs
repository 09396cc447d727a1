//! Pixel arithmetic and font metrics.
//!
//! Sizes and coordinates are `i64` pixels. Sums and products that leave the
//! range of `i64` stay at its nearest end.

use crate::constants::CHAR_HEIGHT;
use crate::constants::CHAR_WIDTH;
use crate::renderer::layout::computed_style::FontSize;
use vstd::prelude::*;

verus! {

/// A point of the page.
#[derive(Debug, Clone, Copy, PartialEq, Eq, Structural)]
pub struct LayoutPoint {
    pub x: i64,
    pub y: i64,
}

impl LayoutPoint {
    pub fn new(x: i64, y: i64) -> (p: Self)
        ensures
            p == (LayoutPoint { x, y }),
    {
        Self { x, y }
    }

    pub fn x(&self) -> (x: i64)
        ensures
            x == self.x,
    {
        self.x
    }

    pub fn y(&self) -> (y: i64)
        ensures
            y == self.y,
    {
        self.y
    }

    pub fn set_x(&mut self, x: i64)
        ensures
            *final(self) == (LayoutPoint { x, ..*old(self) }),
    {
        self.x = x;
    }

    pub fn set_y(&mut self, y: i64)
        ensures
            *final(self) == (LayoutPoint { y, ..*old(self) }),
    {
        self.y = y;
    }
}

/// The extent of a box.
#[derive(Debug, Clone, Copy, PartialEq, Eq, Structural)]
pub struct LayoutSize {
    pub width: i64,
    pub height: i64,
}

impl LayoutSize {
    pub fn new(width: i64, height: i64) -> (s: Self)
        ensures
            s == (LayoutSize { width, height }),
    {
        Self { width, height }
    }

    pub fn width(&self) -> (w: i64)
        ensures
            w == self.width,
    {
        self.width
    }

    pub fn height(&self) -> (h: i64)
        ensures
            h == self.height,
    {
        self.height
    }

    pub fn set_width(&mut self, width: i64)
        ensures
            *final(self) == (LayoutSize { width, ..*old(self) }),
    {
        self.width = width;
    }

    pub fn set_height(&mut self, height: i64)
        ensures
            *final(self) == (LayoutSize { height, ..*old(self) }),
    {
        self.height = height;
    }
}

/// The `i64` nearest to `v`.
pub open spec fn clamp(v: int) -> i64 {
    if v > i64::MAX {
        i64::MAX
    } else if v < i64::MIN {
        i64::MIN
    } else {
        v as i64
    }
}

/// The sum of two pixel values.
pub open spec fn add_sat(a: i64, b: i64) -> i64 {
    clamp(a + b)
}

/// The larger of two pixel values.
pub open spec fn max_of(a: i64, b: i64) -> i64 {
    if a >= b {
        a
    } else {
        b
    }
}

/// `add_sat`, computed.
pub fn plus(a: i64, b: i64) -> (r: i64)
    ensures
        r == add_sat(a, b),
{
    match a.checked_add(b) {
        Some(r) => r,
        None => if b > 0 {
            i64::MAX
        } else {
            i64::MIN
        },
    }
}

/// `max_of`, computed.
pub fn larger(a: i64, b: i64) -> (r: i64)
    ensures
        r == max_of(a, b),
{
    if a >= b {
        a
    } else {
        b
    }
}

/// Width of one character: one, two or three times the medium width.
pub open spec fn char_advance(f: FontSize) -> int {
    match f {
        FontSize::Medium => CHAR_WIDTH as int,
        FontSize::XLarge => 2 * CHAR_WIDTH,
        FontSize::XXLarge => 3 * CHAR_WIDTH,
    }
}

/// Height of one line: one, two or three times the medium height.
pub open spec fn line_height(f: FontSize) -> int {
    match f {
        FontSize::Medium => CHAR_HEIGHT as int,
        FontSize::XLarge => 2 * CHAR_HEIGHT,
        FontSize::XXLarge => 3 * CHAR_HEIGHT,
    }
}

/// How many characters go on one line of width `w`: as many as fit, and
/// one where not even one fits.
pub open spec fn chars_per_line(f: FontSize, w: i64) -> int {
    if (w as int) / char_advance(f) >= 1 {
        (w as int) / char_advance(f)
    } else {
        1
    }
}

/// Whether `n` characters fit on one line of width `w`.
pub open spec fn fits(n: nat, f: FontSize, w: i64) -> bool {
    n * char_advance(f) <= w
}

/// The number of lines that `n` characters take.
pub open spec fn line_count(n: nat, f: FontSize, w: i64) -> int {
    if fits(n, f, w) {
        1
    } else if n == 0 {
        0
    } else {
        (n - 1) / chars_per_line(f, w) + 1
    }
}

/// The size of a text of `n` characters in a line of width `w`: as wide as
/// its characters and one line high if it fits, else as wide as the line and
/// as high as its lines.
pub open spec fn text_size(n: nat, f: FontSize, w: i64) -> LayoutSize {
    if fits(n, f, w) {
        LayoutSize { width: (n * char_advance(f)) as i64, height: line_height(f) as i64 }
    } else {
        LayoutSize { width: w, height: clamp(line_count(n, f, w) * line_height(f)) }
    }
}

/// `char_advance`, computed.
pub fn advance_of(f: FontSize) -> (r: i64)
    ensures
        r == char_advance(f),
        r == 8 || r == 16 || r == 24,
{
    match f {
        FontSize::Medium => CHAR_WIDTH,
        FontSize::XLarge => 2 * CHAR_WIDTH,
        FontSize::XXLarge => 3 * CHAR_WIDTH,
    }
}

/// `line_height`, computed.
pub fn line_height_of(f: FontSize) -> (r: i64)
    ensures
        r == line_height(f),
        r == 16 || r == 32 || r == 48,
{
    match f {
        FontSize::Medium => CHAR_HEIGHT,
        FontSize::XLarge => 2 * CHAR_HEIGHT,
        FontSize::XXLarge => 3 * CHAR_HEIGHT,
    }
}

/// `n * k` for one of the few factors that the metrics use.
fn scale(n: u128, k: i64) -> (r: u128)
    requires
        n <= u64::MAX,
        k == 8 || k == 16 || k == 24 || k == 32 || k == 48,
    ensures
        r == n * k,
{
    if k == 8 {
        n * 8
    } else if k == 16 {
        n * 16
    } else if k == 24 {
        n * 24
    } else if k == 32 {
        n * 32
    } else {
        n * 48
    }
}

/// `chars_per_line`, computed.
pub fn chars_per_line_of(f: FontSize, w: i64) -> (r: u64)
    ensures
        r == chars_per_line(f, w),
        r >= 1,
{
    assert(char_advance(f) == 8 || char_advance(f) == 16 || char_advance(f) == 24);
    match f {
        FontSize::Medium => if w >= 8 {
            (w / 8) as u64
        } else {
            1
        },
        FontSize::XLarge => if w >= 16 {
            (w / 16) as u64
        } else {
            1
        },
        FontSize::XXLarge => if w >= 24 {
            (w / 24) as u64
        } else {
            1
        },
    }
}

/// `fits`, computed.
pub fn fits_in(n: usize, f: FontSize, w: i64) -> (r: bool)
    ensures
        r == fits(n as nat, f, w),
{
    let adv = advance_of(f);
    w >= 0 && scale(n as u128, adv) <= w as u128
}

/// `line_count`, computed.
pub fn line_count_of(n: usize, f: FontSize, w: i64) -> (r: u64)
    ensures
        r == line_count(n as nat, f, w),
{
    if fits_in(n, f, w) {
        1
    } else {
        let cpl = chars_per_line_of(f, w);
        if n == 0 {
            0
        } else {
            assert((n - 1) / (cpl as int) <= n - 1) by (nonlinear_arith)
                requires
                    n >= 1,
                    cpl >= 1,
            ;
            (n as u64 - 1) / cpl + 1
        }
    }
}

/// `text_size`, computed.
pub fn text_size_of(n: usize, f: FontSize, w: i64) -> (r: LayoutSize)
    ensures
        r == text_size(n as nat, f, w),
{
    let adv = advance_of(f);
    let lh = line_height_of(f);
    if fits_in(n, f, w) {
        LayoutSize { width: scale(n as u128, adv) as i64, height: lh }
    } else {
        let lines = line_count_of(n, f, w);
        let h = scale(lines as u128, lh);
        LayoutSize {
            width: w,
            height: if h > i64::MAX as u128 {
                i64::MAX
            } else {
                h as i64
            },
        }
    }
}

} // verus!
