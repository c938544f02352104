//! Images: anything that can report a brightness level for each cell of the
//! 5x5 grid.

use vstd::prelude::*;
use crate::brightness::MAX_BRIGHTNESS;
use crate::bits::{bit8, lemma_bit8_or_one, lemma_bit8_zero};
use crate::matrix::IMAGE_SIDE;

verus! {

/// The capability the frame compiler needs from an image: one brightness
/// level per cell.
///
/// `(0, 0)` is the top left cell; `x` grows rightwards, `y` downwards.
/// The compiler reads the image once, synchronously, with coordinates that
/// are always in range.
pub trait Render {
    /// The brightness level of the cell at `(x, y)`, as a mathematical
    /// value.
    spec fn spec_level(&self, x: int, y: int) -> u8;

    /// Returns the brightness level of the cell at `(x, y)`: 0 is dark,
    /// 9 the brightest.
    fn brightness_at(&self, x: usize, y: usize) -> (level: u8)
        requires
            x < IMAGE_SIDE,
            y < IMAGE_SIDE,
        ensures
            level == self.spec_level(x as int, y as int),
            level <= MAX_BRIGHTNESS,
    ;
}

/// A 5x5 greyscale image, one byte per cell, indexed `[y][x]`.
///
/// Stored levels above 9 are shown clamped to 9, so a malformed buffer can
/// give a visually wrong but never a broken display.
#[derive(Clone, Copy, Debug, PartialEq, Eq)]
pub struct GreyscaleImage {
    pub levels: [[u8; 5]; 5],
}

impl GreyscaleImage {
    /// Wraps a 5x5 buffer of brightness levels, indexed `[y][x]`.
    pub fn new(levels: &[[u8; 5]; 5]) -> (img: GreyscaleImage)
        ensures
            img.levels == *levels,
    {
        GreyscaleImage { levels: *levels }
    }

    /// The all-dark image.
    pub fn blank() -> (img: GreyscaleImage)
        ensures
            forall|x: int, y: int|
                0 <= x < 5 && 0 <= y < 5 ==> img.spec_level(x, y) == 0,
    {
        GreyscaleImage { levels: [[0; 5]; 5] }
    }
}

impl Render for GreyscaleImage {
    open spec fn spec_level(&self, x: int, y: int) -> u8 {
        if self.levels@[y]@[x] > MAX_BRIGHTNESS {
            MAX_BRIGHTNESS
        } else {
            self.levels@[y]@[x]
        }
    }

    fn brightness_at(&self, x: usize, y: usize) -> (level: u8) {
        let v = self.levels[y][x];
        if v > MAX_BRIGHTNESS {
            MAX_BRIGHTNESS
        } else {
            v
        }
    }
}

/// A 5x5 black-and-white image: one byte per image row, bit `x` of byte `y`
/// saying whether the cell at `(x, y)` is on.  An "on" cell is shown at full
/// brightness.
#[derive(Clone, Copy, Debug, PartialEq, Eq)]
pub struct BitImage {
    pub rows: [u8; 5],
}

impl BitImage {
    /// Builds a black-and-white image from a 5x5 buffer indexed `[y][x]`;
    /// any nonzero cell is on.
    pub fn new(cells: &[[u8; 5]; 5]) -> (img: BitImage)
        ensures
            forall|x: int, y: int|
                0 <= x < 5 && 0 <= y < 5 ==>
                    img.spec_level(x, y) == (if cells@[y]@[x] != 0 {
                        MAX_BRIGHTNESS as u8
                    } else {
                        0u8
                    }),
    {
        let mut rows: [u8; 5] = [0; 5];
        let mut y: usize = 0;
        while y < 5
            invariant
                y <= 5,
                forall|yy: int, x: int|
                    0 <= yy < y && 0 <= x < 5 ==>
                        bit8(rows@[yy], x as u8) == (cells@[yy]@[x] != 0),
                forall|yy: int| y <= yy < 5 ==> rows@[yy] == 0,
            decreases 5 - y,
        {
            let mut mask: u8 = 0;
            let mut x: usize = 0;
            proof {
                assert forall|c: u8| c < 8 implies !bit8(0u8, c) by {
                    lemma_bit8_zero(c);
                }
            }
            while x < 5
                invariant
                    x <= 5,
                    y < 5,
                    forall|xx: u8| xx < 8 ==>
                        bit8(mask, xx) == (xx < x && cells@[y as int]@[xx as int] != 0),
                decreases 5 - x,
            {
                if cells[y][x] != 0 {
                    let ghost m0 = mask;
                    mask = mask | (1u8 << (x as u8));
                    proof {
                        assert forall|c: u8| c < 8 implies
                            bit8(mask, c) == (bit8(m0, c) || c == x as u8) by {
                            lemma_bit8_or_one(m0, x as u8, c);
                        }
                    }
                }
                x += 1;
            }
            rows[y] = mask;
            y += 1;
        }
        BitImage { rows }
    }

    /// The image with every cell on.
    pub fn all_on() -> (img: BitImage)
        ensures
            forall|x: int, y: int|
                0 <= x < 5 && 0 <= y < 5 ==> img.spec_level(x, y) == MAX_BRIGHTNESS,
    {
        BitImage::new(&[[1; 5]; 5])
    }
}

impl Render for BitImage {
    open spec fn spec_level(&self, x: int, y: int) -> u8 {
        if bit8(self.rows@[y], x as u8) {
            MAX_BRIGHTNESS
        } else {
            0
        }
    }

    fn brightness_at(&self, x: usize, y: usize) -> (level: u8) {
        if self.rows[y] & (1u8 << (x as u8)) != 0 {
            MAX_BRIGHTNESS
        } else {
            0
        }
    }
}

} // verus!
