//! How the 5x5 image maps onto the physical LED matrix.
//!
//! The 25 LEDs are driven as 3 matrix rows sharing 9 column lines, so the
//! image coordinates of an LED have nothing to do with the row and column
//! that light it.  This module holds that wiring table.

use vstd::prelude::*;

verus! {

/// The number of physical matrix rows.
pub const MATRIX_ROWS: usize = 3;

/// The number of column lines shared by the matrix rows.
pub const MATRIX_COLS: usize = 9;

/// The side of the square image, in LEDs.
pub const IMAGE_SIDE: usize = 5;

/// The image cell `(x, y)` shown by the LED driven at matrix position
/// `(col, row)`, or `None` for the two matrix positions that drive no LED.
///
/// This is the mirror of the wiring table: matrix rows 0 and 2 drive nine
/// LEDs each, matrix row 1 drives seven.
pub open spec fn spec_image_coordinates(col: int, row: int) -> Option<(usize, usize)> {
    if row == 0 {
        if col == 0 { Some((0, 0)) }
        else if col == 1 { Some((2, 0)) }
        else if col == 2 { Some((4, 0)) }
        else if col == 3 { Some((4, 3)) }
        else if col == 4 { Some((3, 3)) }
        else if col == 5 { Some((2, 3)) }
        else if col == 6 { Some((1, 3)) }
        else if col == 7 { Some((0, 3)) }
        else if col == 8 { Some((1, 2)) }
        else { None }
    } else if row == 1 {
        if col == 0 { Some((4, 2)) }
        else if col == 1 { Some((0, 2)) }
        else if col == 2 { Some((2, 2)) }
        else if col == 3 { Some((1, 0)) }
        else if col == 4 { Some((3, 0)) }
        else if col == 5 { Some((3, 4)) }
        else if col == 6 { Some((1, 4)) }
        else { None }
    } else if row == 2 {
        if col == 0 { Some((2, 4)) }
        else if col == 1 { Some((4, 4)) }
        else if col == 2 { Some((0, 4)) }
        else if col == 3 { Some((0, 1)) }
        else if col == 4 { Some((1, 1)) }
        else if col == 5 { Some((2, 1)) }
        else if col == 6 { Some((3, 1)) }
        else if col == 7 { Some((4, 1)) }
        else if col == 8 { Some((3, 2)) }
        else { None }
    } else {
        None
    }
}

/// Whether the matrix position `(row, col)` drives an LED at all.
pub open spec fn wired(row: int, col: int) -> bool {
    spec_image_coordinates(col, row) is Some
}

/// The matrix position `(row, col)` whose LED shows the image cell
/// `(x, y)`: the wiring table read the other way round.
pub open spec fn spec_led_position(x: int, y: int) -> (int, int) {
    if y == 0 {
        if x == 0 { (0, 0) }
        else if x == 1 { (1, 3) }
        else if x == 2 { (0, 1) }
        else if x == 3 { (1, 4) }
        else { (0, 2) }
    } else if y == 1 {
        if x == 0 { (2, 3) }
        else if x == 1 { (2, 4) }
        else if x == 2 { (2, 5) }
        else if x == 3 { (2, 6) }
        else { (2, 7) }
    } else if y == 2 {
        if x == 0 { (1, 1) }
        else if x == 1 { (0, 8) }
        else if x == 2 { (1, 2) }
        else if x == 3 { (2, 8) }
        else { (1, 0) }
    } else if y == 3 {
        if x == 0 { (0, 7) }
        else if x == 1 { (0, 6) }
        else if x == 2 { (0, 5) }
        else if x == 3 { (0, 4) }
        else { (0, 3) }
    } else {
        if x == 0 { (2, 2) }
        else if x == 1 { (1, 6) }
        else if x == 2 { (2, 0) }
        else if x == 3 { (1, 5) }
        else { (2, 1) }
    }
}

/// The wiring is total over the image: every one of the 25 cells is shown
/// by the LED at its table position, a real position of the matrix.
pub proof fn lemma_wiring_total(x: int, y: int)
    requires
        0 <= x < IMAGE_SIDE,
        0 <= y < IMAGE_SIDE,
    ensures
        0 <= spec_led_position(x, y).0 < MATRIX_ROWS,
        0 <= spec_led_position(x, y).1 < MATRIX_COLS,
        spec_image_coordinates(spec_led_position(x, y).1, spec_led_position(x, y).0)
            == Some((x as usize, y as usize)),
{
}

/// The wiring drives no LED twice: a wired matrix position is the table
/// position of the cell it shows.
pub proof fn lemma_wiring_inverse(row: int, col: int)
    requires
        0 <= row < MATRIX_ROWS,
        0 <= col < MATRIX_COLS,
        wired(row, col),
    ensures
        ({
            let xy = spec_image_coordinates(col, row)->Some_0;
            spec_led_position(xy.0 as int, xy.1 as int) == (row, col)
        }),
{
}

/// Returns the image cell shown by the LED at matrix position `(col, row)`,
/// or `None` if that position drives no LED.
pub fn image_coordinates(col: usize, row: usize) -> (r: Option<(usize, usize)>)
    requires
        col < MATRIX_COLS,
        row < MATRIX_ROWS,
    ensures
        r == spec_image_coordinates(col as int, row as int),
        r matches Some(xy) ==> xy.0 < IMAGE_SIDE && xy.1 < IMAGE_SIDE,
{
    match (row, col) {
        (0, 0) => Some((0, 0)),
        (0, 1) => Some((2, 0)),
        (0, 2) => Some((4, 0)),
        (0, 3) => Some((4, 3)),
        (0, 4) => Some((3, 3)),
        (0, 5) => Some((2, 3)),
        (0, 6) => Some((1, 3)),
        (0, 7) => Some((0, 3)),
        (0, 8) => Some((1, 2)),
        (1, 0) => Some((4, 2)),
        (1, 1) => Some((0, 2)),
        (1, 2) => Some((2, 2)),
        (1, 3) => Some((1, 0)),
        (1, 4) => Some((3, 0)),
        (1, 5) => Some((3, 4)),
        (1, 6) => Some((1, 4)),
        (2, 0) => Some((2, 4)),
        (2, 1) => Some((4, 4)),
        (2, 2) => Some((0, 4)),
        (2, 3) => Some((0, 1)),
        (2, 4) => Some((1, 1)),
        (2, 5) => Some((2, 1)),
        (2, 6) => Some((3, 1)),
        (2, 7) => Some((4, 1)),
        (2, 8) => Some((3, 2)),
        _ => None,
    }
}

} // verus!
