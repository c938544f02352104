use led_matrix::display::{
    initialise_display, handle_display_event, Display, DisplayControl, DisplayTimer, Event, LedOp,
    TimerOp,
};
use led_matrix::frame::compile;
use led_matrix::image::{BitImage, GreyscaleImage};
use led_matrix::simulate::{run_cycle, run_slot, SlotTrace};

struct MockTimer {
    primary: bool,
    secondary: bool,
    cycle: Option<u16>,
    programmed: Option<u16>,
    enabled: bool,
}

impl MockTimer {
    fn new() -> MockTimer {
        MockTimer { primary: false, secondary: false, cycle: None, programmed: None, enabled: false }
    }
}

impl DisplayTimer for MockTimer {
    fn initialise_cycle(&mut self, ticks: u16) {
        self.cycle = Some(ticks);
        self.enabled = false;
    }

    fn enable_secondary(&mut self) {
        self.enabled = true;
    }

    fn disable_secondary(&mut self) {
        self.enabled = false;
    }

    fn program_secondary(&mut self, ticks: u16) {
        self.programmed = Some(ticks);
    }

    fn check_primary(&mut self) -> bool {
        let fired = self.primary;
        self.primary = false;
        fired
    }

    fn check_secondary(&mut self) -> bool {
        let fired = self.secondary;
        self.secondary = false;
        fired
    }
}

struct MockControl {
    initialised: bool,
    selects: Vec<(usize, u32)>,
    updates: Vec<u32>,
}

impl MockControl {
    fn new() -> MockControl {
        MockControl { initialised: false, selects: Vec::new(), updates: Vec::new() }
    }
}

impl DisplayControl for MockControl {
    fn initialise_for_display(&mut self) {
        self.initialised = true;
    }

    fn display_row_leds(&mut self, row: usize, cols: u32) {
        self.selects.push((row, cols));
    }

    fn update_current_row_leds(&mut self, cols: u32) {
        self.updates.push(cols);
    }
}

#[test]
fn initialise_programs_timer_and_pins() {
    let mut timer = MockTimer::new();
    let mut gpio = MockControl::new();
    initialise_display(&mut timer, &mut gpio);
    assert!(gpio.initialised);
    assert_eq!(timer.cycle, Some(375));
    assert!(!timer.enabled);
}

#[test]
fn full_cycle_all_on_keeps_columns_high() {
    // an all-on image: rows advance 0, 1, 2, 0, every wired column high
    // for its whole window, and no mid-row column change at all
    let mut d = Display::new();
    d.set_frame(compile(&BitImage::all_on()));
    let mut timer = MockTimer::new();
    let mut gpio = MockControl::new();
    for _ in 0..4 {
        timer.primary = true;
        let e = handle_display_event(&mut d, &mut timer, &mut gpio);
        assert_eq!(e, Event::SwitchedRow);
        // no intermediate level anywhere: the secondary alarm stays off
        assert!(!timer.enabled);
        // an interrupt with nothing pending changes nothing
        let idle = handle_display_event(&mut d, &mut timer, &mut gpio);
        assert_eq!(idle, Event::Unknown);
    }
    assert_eq!(gpio.selects, vec![(0, 0x1FF), (1, 0x07F), (2, 0x1FF), (0, 0x1FF)]);
    assert!(gpio.updates.is_empty());
}

#[test]
fn secondary_alarm_clears_dim_columns() {
    // every cell at level 3: each row start programs one alarm at tick 8,
    // whose event clears the whole row
    let mut d = Display::new();
    d.set_frame(compile(&GreyscaleImage::new(&[[3; 5]; 5])));
    let mut timer = MockTimer::new();
    let mut gpio = MockControl::new();
    timer.primary = true;
    let e = handle_display_event(&mut d, &mut timer, &mut gpio);
    assert_eq!(e, Event::SwitchedRow);
    assert_eq!(gpio.selects, vec![(0, 0x1FF)]);
    assert!(timer.enabled);
    assert_eq!(timer.programmed, Some(8));
    timer.secondary = true;
    let e = handle_display_event(&mut d, &mut timer, &mut gpio);
    assert_eq!(e, Event::UpdatedRow);
    assert_eq!(gpio.updates, vec![0]);
    assert!(!timer.enabled);
}

#[test]
fn blank_display_never_lights_a_column() {
    // a fresh display holds the all-off frame; a whole refresh cycle
    // never asserts any column line
    let mut d = Display::new();
    let traces = run_cycle(&mut d);
    assert_eq!(traces.len(), 3);
    for tr in &traces {
        assert_eq!(tr.patterns.len(), 375);
        for &p in &tr.patterns {
            assert_eq!(p, 0);
        }
    }
}

#[test]
fn full_cycle_trace_all_on() {
    let mut d = Display::new();
    d.set_frame(compile(&BitImage::all_on()));
    let traces = run_cycle(&mut d);
    let full: [u16; 3] = [0x1FF, 0x07F, 0x1FF];
    assert_eq!(traces.len(), 3);
    for (r, tr) in traces.iter().enumerate() {
        assert_eq!(tr.row, r);
        assert_eq!(tr.patterns.len(), 375);
        for &p in &tr.patterns {
            assert_eq!(p, full[r]);
        }
    }
}

#[test]
fn lit_durations_proportional_to_levels() {
    // image row 0 holds levels {0, 3, 9, 5, 0}; its cells sit at matrix
    // positions (row 0, col 0), (row 1, col 3), (row 0, col 1),
    // (row 1, col 4), (row 0, col 2)
    let mut grid: [[u8; 5]; 5] = [[0; 5]; 5];
    grid[0] = [0, 3, 9, 5, 0];
    let mut d = Display::new();
    d.set_frame(compile(&GreyscaleImage::new(&grid)));
    let traces = run_cycle(&mut d);
    let lit = |tr: &SlotTrace, col: usize| -> usize {
        tr.patterns.iter().filter(|&&p| (p >> col) & 1 == 1).count()
    };
    assert_eq!(lit(&traces[0], 0), 0); // level 0
    assert_eq!(lit(&traces[1], 3), 8); // level 3
    assert_eq!(lit(&traces[0], 1), 375); // level 9
    assert_eq!(lit(&traces[1], 4), 28); // level 5
    assert_eq!(lit(&traces[0], 2), 0); // level 0
}

#[test]
fn swap_mid_row_shows_dark_at_next_row_start() {
    // all cells at full brightness but one at level 3, so row 0 has one
    // pending event; swap to all-off mid-row
    let mut grid: [[u8; 5]; 5] = [[9; 5]; 5];
    grid[0][0] = 3; // matrix row 0, column 0
    let mut d = Display::new();
    d.set_frame(compile(&GreyscaleImage::new(&grid)));

    // row 0 starts with every column lit, one alarm pending at tick 8
    let a = d.step(true, false);
    assert_eq!(a.led, LedOp::SelectRow { row: 0, cols: 0x1FF });
    assert_eq!(a.timer, TimerOp::Program { offset: 8 });

    // the swap happens mid-row
    d.set_frame(compile(&GreyscaleImage::blank()));

    // the row in progress still finishes with its old schedule
    let a = d.step(false, true);
    assert_eq!(a.led, LedOp::SetCols { cols: 0x1FE });
    assert_eq!(a.timer, TimerOp::Disable);

    // from the next row start the display is fully dark
    let a = d.step(true, false);
    assert_eq!(a.led, LedOp::SelectRow { row: 1, cols: 0 });
    assert_eq!(a.timer, TimerOp::Disable);
    let a = d.step(true, false);
    assert_eq!(a.led, LedOp::SelectRow { row: 2, cols: 0 });
    assert_eq!(a.timer, TimerOp::Disable);
    let a = d.step(true, false);
    assert_eq!(a.led, LedOp::SelectRow { row: 0, cols: 0 });
    assert_eq!(a.timer, TimerOp::Disable);
}

#[test]
fn swap_between_rows_takes_effect_immediately() {
    let mut d = Display::new();
    d.set_frame(compile(&BitImage::all_on()));
    let tr = run_slot(&mut d);
    assert_eq!(tr.row, 0);
    assert_eq!(d.current_row(), 0);
    assert!(tr.patterns.iter().all(|&p| p == 0x1FF));
    d.set_frame(compile(&GreyscaleImage::blank()));
    let tr = run_slot(&mut d);
    assert_eq!(tr.row, 1);
    assert!(tr.patterns.iter().all(|&p| p == 0));
}
