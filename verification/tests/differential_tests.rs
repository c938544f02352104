//! Plays the same images through this crate's engine and through the
//! `tiny-led-matrix` driver (wired with the same matrix layout), and checks
//! that every LED ends up lit for exactly the same number of ticks in a
//! full refresh cycle.  The two drivers schedule differently — this crate
//! lights a dim column early and clears it at its threshold, the
//! `tiny-led-matrix` driver lights it late — but the per-LED lit durations
//! must agree.

use led_matrix::display::Display;
use led_matrix::frame::compile;
use led_matrix::image::GreyscaleImage;
use led_matrix::simulate::run_cycle;

use tiny_led_matrix::{
    Display as TinyDisplay, DisplayControl as TinyControl, DisplayTimer as TinyTimer,
    Frame as TinyFrame, Matrix as TinyMatrix, Render as TinyRender, RowPlan as TinyRowPlan,
};

struct MbMatrix;

impl TinyMatrix for MbMatrix {
    const MATRIX_COLS: usize = 9;
    const MATRIX_ROWS: usize = 3;
    const IMAGE_COLS: usize = 5;
    const IMAGE_ROWS: usize = 5;

    fn image_coordinates(col: usize, row: usize) -> Option<(usize, usize)> {
        led_matrix::matrix::image_coordinates(col, row)
    }
}

#[derive(Copy, Clone)]
struct MbFrame([TinyRowPlan; 3]);

impl Default for MbFrame {
    fn default() -> MbFrame {
        MbFrame([TinyRowPlan::default(); 3])
    }
}

impl TinyFrame for MbFrame {
    type Mtx = MbMatrix;

    fn row_plan(&self, row: usize) -> &TinyRowPlan {
        &self.0[row]
    }

    fn row_plan_mut(&mut self, row: usize) -> &mut TinyRowPlan {
        &mut self.0[row]
    }
}

struct GridImage([[u8; 5]; 5]);

impl TinyRender for GridImage {
    fn brightness_at(&self, x: usize, y: usize) -> u8 {
        self.0[y][x]
    }
}

struct SimTimer {
    primary: bool,
    secondary: bool,
    programmed: u16,
    enabled: bool,
}

impl TinyTimer for SimTimer {
    fn initialise_cycle(&mut self, ticks: u16) {
        assert_eq!(ticks, 375);
        self.enabled = false;
    }

    fn enable_secondary(&mut self) {
        self.enabled = true;
    }

    fn disable_secondary(&mut self) {
        self.enabled = false;
    }

    fn program_secondary(&mut self, ticks: u16) {
        self.programmed = ticks;
    }

    fn check_primary(&mut self) -> bool {
        let fired = self.primary;
        self.primary = false;
        fired
    }

    fn check_secondary(&mut self) -> bool {
        let fired = self.secondary;
        self.secondary = false;
        fired
    }
}

struct SimControl {
    row: usize,
    cols: u32,
}

impl TinyControl for SimControl {
    fn initialise_for_display(&mut self) {}

    fn display_row_leds(&mut self, row: usize, cols: u32) {
        self.row = row;
        self.cols = cols;
    }

    fn light_current_row_leds(&mut self, cols: u32) {
        self.cols |= cols;
    }
}

/// Ticks each matrix position is lit during one full refresh cycle of the
/// `tiny-led-matrix` driver.
fn tiny_durations(grid: [[u8; 5]; 5]) -> [[u32; 9]; 3] {
    let mut frame = MbFrame::default();
    frame.set(&GridImage(grid));
    let mut display: TinyDisplay<MbFrame> = TinyDisplay::new();
    display.set_frame(&frame);
    let mut timer = SimTimer { primary: false, secondary: false, programmed: 0, enabled: false };
    let mut control = SimControl { row: 0, cols: 0 };
    let mut durations = [[0u32; 9]; 3];
    for _slot in 0..3 {
        timer.primary = true;
        display.handle_event(&mut timer, &mut control);
        for t in 0..375u16 {
            if t > 0 && timer.enabled && t == timer.programmed {
                timer.secondary = true;
                display.handle_event(&mut timer, &mut control);
            }
            for c in 0..9 {
                if (control.cols >> c) & 1 == 1 {
                    durations[control.row][c] += 1;
                }
            }
        }
    }
    durations
}

/// Ticks each matrix position is lit during one full refresh cycle of this
/// crate's engine.
fn our_durations(grid: [[u8; 5]; 5]) -> [[u32; 9]; 3] {
    let mut d = Display::new();
    d.set_frame(compile(&GreyscaleImage::new(&grid)));
    let traces = run_cycle(&mut d);
    let mut durations = [[0u32; 9]; 3];
    for tr in &traces {
        for &p in &tr.patterns {
            for c in 0..9 {
                if (p >> c) & 1 == 1 {
                    durations[tr.row][c] += 1;
                }
            }
        }
    }
    durations
}

#[test]
fn brightness_scale_agrees() {
    assert_eq!(led_matrix::brightness::MAX_BRIGHTNESS, tiny_led_matrix::MAX_BRIGHTNESS);
}

#[test]
fn durations_agree_on_a_gradient() {
    let mut grid: [[u8; 5]; 5] = [[0; 5]; 5];
    for y in 0..5 {
        for x in 0..5 {
            grid[y][x] = ((x + 5 * y) % 10) as u8;
        }
    }
    assert_eq!(our_durations(grid), tiny_durations(grid));
}

#[test]
fn durations_agree_on_a_picture() {
    let grid: [[u8; 5]; 5] = [
        [0, 9, 0, 9, 0],
        [9, 5, 9, 5, 9],
        [9, 5, 5, 5, 9],
        [0, 9, 5, 9, 0],
        [0, 0, 9, 0, 0],
    ];
    assert_eq!(our_durations(grid), tiny_durations(grid));
}

#[test]
fn durations_agree_on_extremes() {
    assert_eq!(our_durations([[0; 5]; 5]), tiny_durations([[0; 5]; 5]));
    assert_eq!(our_durations([[9; 5]; 5]), tiny_durations([[9; 5]; 5]));
}
