//! The display engine: plays the active compiled frame from a recurring
//! timer interrupt, one state-machine transition per interrupt.
//!
//! The engine owns the active [`CompiledFrame`] and a scheduling cursor:
//! the matrix row currently lit, a private copy of that row's schedule, and
//! the index of the next pending event.  Foreground code replaces the
//! active frame with [`Display::set_frame`]; the interrupt handler calls
//! [`Display::handle_event`].  The two must not preempt each other: the
//! caller suspends the display interrupt (or runs `set_frame` from a
//! context the interrupt cannot preempt), which is this crate's only
//! concurrency requirement.
//!
//! A frame swap takes effect at the *next* row start: the row in progress
//! finishes with the copy of the schedule it started with, so a swap never
//! truncates a pattern mid-row, and the new image shows no later than one
//! row slot (6 ms) after the swap.

use vstd::prelude::*;
use crate::brightness::CYCLE_TICKS;
use crate::frame::{CompiledFrame, RowPlan, PlanModel, plan_wf, frame_wf, frame_blank,
    blank_plan_model, pattern_at};
use crate::matrix::MATRIX_ROWS;

verus! {

/// The capability the display needs from its timer: a counter that wraps
/// every [`CYCLE_TICKS`] ticks signalling the primary interrupt, plus a
/// secondary alarm that can be pointed at any tick within the cycle.
///
/// Implementations translate these requests into the registers of a real
/// timer peripheral; they are foreign hardware effects, so nothing is
/// assumed about them here beyond what the engine itself guarantees about
/// the requests it makes.
pub trait DisplayTimer {
    /// Starts the recurring primary cycle of `ticks` ticks, with the
    /// secondary alarm disabled.  Called once, before the display runs.
    fn initialise_cycle(&mut self, ticks: u16)
        requires
            0 < ticks,
    ;

    /// Enables the secondary alarm: from now on reaching the programmed
    /// tick signals an interrupt.
    fn enable_secondary(&mut self);

    /// Disables the secondary alarm.
    fn disable_secondary(&mut self);

    /// Points the secondary alarm at `ticks`, measured from the start of
    /// the primary cycle (not from the previous alarm).
    fn program_secondary(&mut self, ticks: u16)
        requires
            0 < ticks < CYCLE_TICKS,
    ;

    /// Reads and clears the "new primary cycle has begun" condition.
    fn check_primary(&mut self) -> bool;

    /// Reads and clears the "secondary alarm fired" condition.
    fn check_secondary(&mut self) -> bool;
}

/// The capability the display needs from the LED matrix wiring: select a
/// row and drive the shared column lines.
///
/// Bit `c` of `cols` stands for column line `c`.  Both operations must
/// switch the whole pattern atomically enough that no column flickers
/// mid-update.
pub trait DisplayControl {
    /// Puts the matrix pins into their display configuration.  Called
    /// once, before the display runs.
    fn initialise_for_display(&mut self);

    /// Selects matrix row `row` — its line driven, every other row line
    /// released — and lights exactly the columns of `cols` in it.
    fn display_row_leds(&mut self, row: usize, cols: u32)
        requires
            row < MATRIX_ROWS,
    ;

    /// Rewrites the column pattern of the row most recently selected:
    /// exactly the columns of `cols` stay lit.
    fn update_current_row_leds(&mut self, cols: u32);
}

/// What a call to [`Display::handle_event`] did, and so why the interrupt
/// fired.
#[derive(Clone, Copy, Debug, PartialEq, Eq, Structural)]
pub enum Event {
    /// A new primary cycle began: the display switched to the next row.
    SwitchedRow,
    /// The secondary alarm fired: the current row's columns were updated.
    UpdatedRow,
    /// Neither condition was pending; nothing was changed.
    Unknown,
}

/// The LED half of one transition's outward effect.
#[derive(Clone, Copy, Debug, PartialEq, Eq, Structural)]
pub enum LedOp {
    /// Select this matrix row and light exactly these columns in it.
    SelectRow { row: usize, cols: u16 },
    /// Rewrite the current row's columns to exactly these.
    SetCols { cols: u16 },
    /// Leave the LEDs as they are.
    Keep,
}

/// The timer half of one transition's outward effect.
#[derive(Clone, Copy, Debug, PartialEq, Eq, Structural)]
pub enum TimerOp {
    /// Point the secondary alarm at this tick of the cycle and enable it.
    Program { offset: u16 },
    /// Disable the secondary alarm.
    Disable,
    /// Leave the timer as it is.
    Keep,
}

/// The outward effect of one state-machine transition.
#[derive(Clone, Copy, Debug, PartialEq, Eq, Structural)]
pub struct Action {
    /// What to do with the LED matrix.
    pub led: LedOp,
    /// What to do with the secondary alarm.
    pub timer: TimerOp,
}

/// The display engine's state: the active frame plus the scheduling cursor.
pub struct Display {
    frame: CompiledFrame,
    row: usize,
    current: RowPlan,
    next_event: usize,
}

impl Display {
    /// The model of the active frame.
    pub closed spec fn spec_frame(&self) -> Seq<PlanModel> {
        self.frame@
    }

    /// The matrix row currently lit.
    pub closed spec fn spec_row(&self) -> int {
        self.row as int
    }

    /// The model of the engine's copy of the current row's schedule.
    pub closed spec fn spec_current(&self) -> PlanModel {
        self.current@
    }

    /// How many of the current row's events have been applied; the next
    /// pending event, if any, is this one.
    pub closed spec fn spec_next_event(&self) -> int {
        self.next_event as int
    }

    /// The engine's invariant: a well-formed frame, a well-formed current
    /// schedule, a valid row, and a cursor inside the schedule.
    pub open spec fn wf(&self) -> bool {
        &&& frame_wf(self.spec_frame())
        &&& plan_wf(self.spec_current())
        &&& 0 <= self.spec_row() < MATRIX_ROWS
        &&& 0 <= self.spec_next_event() <= self.spec_current().events.len()
    }

    /// The ROW_START transition: the engine moved on to the next row
    /// (wrapping after the last), copied that row's schedule out of the
    /// active frame, and stands before its first event.
    pub open spec fn starts_row(pre: Display, post: Display) -> bool {
        &&& post.spec_frame() == pre.spec_frame()
        &&& post.spec_row() == (pre.spec_row() + 1) % (MATRIX_ROWS as int)
        &&& post.spec_current() == pre.spec_frame()[post.spec_row()]
        &&& post.spec_next_event() == 0
    }

    /// The AWAITING_EVENT transition: the engine applied the pending event
    /// of the current row and advanced past it; everything else stands.
    pub open spec fn applies_event(pre: Display, post: Display) -> bool {
        &&& pre.spec_next_event() < pre.spec_current().events.len()
        &&& post.spec_frame() == pre.spec_frame()
        &&& post.spec_row() == pre.spec_row()
        &&& post.spec_current() == pre.spec_current()
        &&& post.spec_next_event() == pre.spec_next_event() + 1
    }

    /// Creates a display holding the all-dark frame, positioned so that the
    /// first primary interrupt starts row 0.
    pub fn new() -> (d: Display)
        ensures
            d.wf(),
            d.spec_frame().len() == MATRIX_ROWS,
            frame_blank(d.spec_frame()),
            d.spec_row() == MATRIX_ROWS - 1,
            d.spec_current() == blank_plan_model(),
            d.spec_next_event() == 0,
    {
        Display {
            frame: CompiledFrame::blank(),
            row: MATRIX_ROWS - 1,
            current: RowPlan::blank(),
            next_event: 0,
        }
    }

    /// The matrix row currently lit.
    pub fn current_row(&self) -> (r: usize)
        ensures
            r == self.spec_row(),
    {
        self.row
    }

    /// Replaces the active frame; ownership of the frame moves to the
    /// display.
    ///
    /// The cursor is untouched: the row in progress finishes with the copy
    /// of the schedule it started with, and the new frame takes effect at
    /// the next row start — at most one row slot later.
    ///
    /// The caller must make sure [`Display::handle_event`] cannot preempt
    /// this call (normally by suspending the display interrupt around it).
    pub fn set_frame(&mut self, frame: CompiledFrame)
        requires
            old(self).wf(),
            frame_wf(frame@),
        ensures
            final(self).wf(),
            final(self).spec_frame() == frame@,
            final(self).spec_row() == old(self).spec_row(),
            final(self).spec_current() == old(self).spec_current(),
            final(self).spec_next_event() == old(self).spec_next_event(),
    {
        self.frame = frame;
    }

    /// One state-machine transition, as a pure decision: `primary` and
    /// `secondary` say which timer conditions were pending, the returned
    /// [`Action`] says exactly what to do to the hardware.
    ///
    /// A primary interrupt starts the next row; a secondary interrupt
    /// applies the pending event of the current row and schedules the one
    /// after it, if any; a secondary interrupt with nothing pending (or no
    /// interrupt at all) changes nothing.
    pub fn step(&mut self, primary: bool, secondary: bool) -> (a: Action)
        requires
            old(self).wf(),
        ensures
            final(self).wf(),
            final(self).spec_frame() == old(self).spec_frame(),
            primary ==> {
                &&& Display::starts_row(*old(self), *final(self))
                &&& (a.led matches LedOp::SelectRow { row, cols }
                    && row as int == final(self).spec_row()
                    && cols == final(self).spec_current().initial)
                &&& (if final(self).spec_current().events.len() > 0 {
                    a.timer == (TimerOp::Program {
                        offset: final(self).spec_current().events[0].offset,
                    })
                } else {
                    a.timer == TimerOp::Disable
                })
            },
            (!primary && secondary
                && old(self).spec_next_event() < old(self).spec_current().events.len()) ==> {
                &&& Display::applies_event(*old(self), *final(self))
                &&& a.led == (LedOp::SetCols {
                    cols: old(self).spec_current().events[old(self).spec_next_event()].pattern,
                })
                &&& (if old(self).spec_next_event() + 1 < old(self).spec_current().events.len() {
                    a.timer == (TimerOp::Program {
                        offset: old(self).spec_current().events[
                            old(self).spec_next_event() + 1].offset,
                    })
                } else {
                    a.timer == TimerOp::Disable
                })
            },
            (!primary && !(secondary
                && old(self).spec_next_event() < old(self).spec_current().events.len())) ==> {
                &&& *final(self) == *old(self)
                &&& a.led == LedOp::Keep
                &&& a.timer == TimerOp::Keep
            },
    {
        if primary {
            let row = if self.row + 1 == MATRIX_ROWS { 0 } else { self.row + 1 };
            let current = self.frame.rows[row].duplicate();
            self.row = row;
            self.current = current;
            self.next_event = 0;
            proof {
                assert(self.spec_frame()[row as int] == self.frame.rows@[row as int]@);
                assert(plan_wf(self.spec_frame()[row as int]));
            }
            let timer_op = if self.current.events.len() > 0 {
                TimerOp::Program { offset: self.current.events[0].offset }
            } else {
                TimerOp::Disable
            };
            Action {
                led: LedOp::SelectRow { row, cols: self.current.initial },
                timer: timer_op,
            }
        } else if secondary && self.next_event < self.current.events.len() {
            let k = self.next_event;
            let cols = self.current.events[k].pattern;
            self.next_event = k + 1;
            let timer_op = if k + 1 < self.current.events.len() {
                TimerOp::Program { offset: self.current.events[k + 1].offset }
            } else {
                TimerOp::Disable
            };
            Action { led: LedOp::SetCols { cols }, timer: timer_op }
        } else {
            Action { led: LedOp::Keep, timer: TimerOp::Keep }
        }
    }

    /// Updates the LEDs and the timer during a timer interrupt: exactly one
    /// state-machine transition, never blocking and never looping.
    ///
    /// Both pending conditions are read — and thereby cleared — before
    /// returning, whichever caused the interrupt.  The returned [`Event`]
    /// says which transition happened.
    #[verifier::rlimit(60)]
    pub fn handle_event<T: DisplayTimer, C: DisplayControl>(
        &mut self,
        timer: &mut T,
        control: &mut C,
    ) -> (e: Event)
        requires
            old(self).wf(),
        ensures
            final(self).wf(),
            final(self).spec_frame() == old(self).spec_frame(),
            e == Event::SwitchedRow ==> Display::starts_row(*old(self), *final(self)),
            e == Event::UpdatedRow ==> Display::applies_event(*old(self), *final(self)),
            e == Event::Unknown ==> *final(self) == *old(self),
    {
        let primary = timer.check_primary();
        let secondary = timer.check_secondary();
        let had_event = !primary && secondary && self.next_event < self.current.events.len();
        let a = self.step(primary, secondary);
        match a.led {
            LedOp::SelectRow { row, cols } => control.display_row_leds(row, cols as u32),
            LedOp::SetCols { cols } => control.update_current_row_leds(cols as u32),
            LedOp::Keep => {}
        }
        match a.timer {
            TimerOp::Program { offset } => {
                timer.program_secondary(offset);
                timer.enable_secondary();
            }
            TimerOp::Disable => timer.disable_secondary(),
            TimerOp::Keep => {}
        }
        if primary {
            Event::SwitchedRow
        } else if had_event {
            Event::UpdatedRow
        } else {
            Event::Unknown
        }
    }
}

/// A frame swap shows in bounded time: replacing the active frame leaves
/// the cursor alone, so once the frame is all dark — as `set_frame`
/// guarantees the engine holds it from the moment of the swap — the very
/// next ROW_START transition selects its row with no column lit and
/// schedules no event, and the display stays dark for that whole slot and
/// every following one.
pub proof fn lemma_swap_dark_at_row_start(pre: Display, post: Display)
    requires
        pre.wf(),
        pre.spec_frame().len() == MATRIX_ROWS,
        frame_blank(pre.spec_frame()),
        Display::starts_row(pre, post),
    ensures
        post.spec_current() == blank_plan_model(),
        post.spec_current().initial == 0,
        post.spec_current().events.len() == 0,
        forall|t: int| 0 <= t < CYCLE_TICKS ==> pattern_at(post.spec_current(), t) == 0,
{
    assert(post.spec_current() == pre.spec_frame()[post.spec_row()]);
}

/// Puts the timer and the matrix pins into the configuration the display
/// expects, assuming both are in their reset state.  Call once at startup,
/// before the first interrupt.
pub fn initialise_display<T: DisplayTimer, C: DisplayControl>(timer: &mut T, control: &mut C) {
    control.initialise_for_display();
    timer.initialise_cycle(CYCLE_TICKS);
}

/// Updates the LEDs and the timer during a timer interrupt; call this from
/// the interrupt handler of the display's timer.
///
/// This is [`Display::handle_event`] as a free function, taking care of one
/// full transition and clearing the timer's pending conditions.
pub fn handle_display_event<T: DisplayTimer, C: DisplayControl>(
    display: &mut Display,
    timer: &mut T,
    control: &mut C,
) -> (e: Event)
    requires
        old(display).wf(),
    ensures
        final(display).wf(),
        final(display).spec_frame() == old(display).spec_frame(),
        e == Event::SwitchedRow ==> Display::starts_row(*old(display), *final(display)),
        e == Event::UpdatedRow ==> Display::applies_event(*old(display), *final(display)),
        e == Event::Unknown ==> *final(display) == *old(display),
{
    display.handle_event(timer, control)
}

} // verus!
