use led_matrix::brightness::duration_of_level;
use led_matrix::frame::compile;
use led_matrix::image::{BitImage, GreyscaleImage, Render};

#[test]
fn duration_table_matches_reference() {
    let expected: [u16; 10] = [0, 2, 4, 8, 15, 28, 53, 102, 199, 375];
    for level in 0..10u8 {
        assert_eq!(duration_of_level(level), expected[level as usize]);
    }
    // levels above nine are shown as nine
    assert_eq!(duration_of_level(10), 375);
    assert_eq!(duration_of_level(255), 375);
}

#[test]
fn duration_table_monotone_and_positive() {
    for l1 in 0..9u8 {
        for l2 in (l1 + 1)..10u8 {
            assert!(duration_of_level(l1) < duration_of_level(l2));
        }
    }
    for level in 1..10u8 {
        assert!(duration_of_level(level) > 0);
    }
}

#[test]
fn blank_compiles_dark() {
    let frame = compile(&GreyscaleImage::blank());
    assert_eq!(frame.rows.len(), 3);
    for plan in &frame.rows {
        assert_eq!(plan.initial, 0);
        assert!(plan.events.is_empty());
    }
}

#[test]
fn all_on_compiles_to_no_events() {
    let frame = compile(&BitImage::all_on());
    assert_eq!(frame.rows.len(), 3);
    for plan in &frame.rows {
        assert!(plan.events.len() <= 1);
        assert!(plan.events.is_empty());
    }
    // matrix rows 0 and 2 drive nine LEDs, row 1 drives seven
    assert_eq!(frame.rows[0].initial, 0x1FF);
    assert_eq!(frame.rows[1].initial, 0x07F);
    assert_eq!(frame.rows[2].initial, 0x1FF);
}

#[test]
fn compile_twice_is_identical() {
    let mut grid: [[u8; 5]; 5] = [[0; 5]; 5];
    grid[0] = [0, 3, 9, 5, 0];
    grid[3] = [1, 2, 3, 4, 5];
    let img = GreyscaleImage::new(&grid);
    let f1 = compile(&img);
    let f2 = compile(&img);
    assert_eq!(f1, f2);
}

#[test]
fn levels_above_nine_compile_like_nine() {
    let mut loud: [[u8; 5]; 5] = [[12; 5]; 5];
    loud[2][2] = 200;
    let f1 = compile(&GreyscaleImage::new(&loud));
    let f2 = compile(&GreyscaleImage::new(&[[9; 5]; 5]));
    assert_eq!(f1, f2);
}

#[test]
fn uniform_level_schedules_one_event_per_row() {
    let frame = compile(&GreyscaleImage::new(&[[3; 5]; 5]));
    assert_eq!(frame.rows[0].initial, 0x1FF);
    assert_eq!(frame.rows[1].initial, 0x07F);
    assert_eq!(frame.rows[2].initial, 0x1FF);
    for plan in &frame.rows {
        // one distinct level: one event, at that level's threshold,
        // clearing everything
        assert_eq!(plan.events.len(), 1);
        assert_eq!(plan.events[0].offset, 8);
        assert_eq!(plan.events[0].pattern, 0);
    }
}

#[test]
fn equal_thresholds_coalesce_into_one_event() {
    // matrix row 0 shows cells (0,0) at column 0 and (2,0) at column 1;
    // put them at level 7, everything else at level 3
    let mut grid: [[u8; 5]; 5] = [[3; 5]; 5];
    grid[0][0] = 7;
    grid[0][2] = 7;
    let frame = compile(&GreyscaleImage::new(&grid));
    let row0 = &frame.rows[0];
    assert_eq!(row0.initial, 0x1FF);
    // two distinct levels in the row: exactly two events, sorted by
    // offset; the first clears the seven level-3 columns at once
    assert_eq!(row0.events.len(), 2);
    assert_eq!(row0.events[0].offset, 8);
    assert_eq!(row0.events[0].pattern, 0b11);
    assert_eq!(row0.events[1].offset, 102);
    assert_eq!(row0.events[1].pattern, 0);
    // a row with only level 3 keeps its single event
    assert_eq!(frame.rows[1].events.len(), 1);
}

#[test]
fn greyscale_brightness_reads_and_clamps() {
    let mut grid: [[u8; 5]; 5] = [[0; 5]; 5];
    grid[1][4] = 7;
    grid[2][0] = 13;
    let img = GreyscaleImage::new(&grid);
    assert_eq!(img.brightness_at(4, 1), 7);
    assert_eq!(img.brightness_at(0, 2), 9);
    assert_eq!(img.brightness_at(0, 0), 0);
}

#[test]
fn bit_image_reads_on_and_off() {
    let mut cells: [[u8; 5]; 5] = [[0; 5]; 5];
    cells[0][0] = 1;
    cells[4][4] = 7;
    let img = BitImage::new(&cells);
    assert_eq!(img.brightness_at(0, 0), 9);
    assert_eq!(img.brightness_at(4, 4), 9);
    assert_eq!(img.brightness_at(2, 2), 0);
    let on = BitImage::all_on();
    for y in 0..5 {
        for x in 0..5 {
            assert_eq!(on.brightness_at(x, y), 9);
        }
    }
}

#[test]
fn wiring_covers_every_cell_once() {
    let mut seen = [[false; 5]; 5];
    let mut count = 0;
    for row in 0..3 {
        for col in 0..9 {
            if let Some((x, y)) = led_matrix::matrix::image_coordinates(col, row) {
                assert!(x < 5 && y < 5);
                assert!(!seen[y][x]);
                seen[y][x] = true;
                count += 1;
            }
        }
    }
    assert_eq!(count, 25);
}

#[test]
fn single_cell_lights_its_matrix_position() {
    let cases = [
        ((0, 0), (0, 0)),
        ((4, 0), (0, 2)),
        ((0, 4), (2, 2)),
        ((4, 4), (2, 1)),
        ((2, 2), (1, 2)),
    ];
    for ((x, y), (row, col)) in cases {
        let mut grid: [[u8; 5]; 5] = [[0; 5]; 5];
        grid[y][x] = 9;
        let frame = compile(&GreyscaleImage::new(&grid));
        for r in 0..3 {
            let expected: u16 = if r == row { 1u16 << col } else { 0 };
            assert_eq!(frame.rows[r].initial, expected);
            assert!(frame.rows[r].events.is_empty());
        }
    }
}
