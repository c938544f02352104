//! Cycle-accurate playback of the display state machine.
//!
//! Foreground code (and the crate's tests) can run the very transition
//! function the interrupt handler runs, tick by tick, and see exactly
//! which columns the display lights at every tick of a row slot.  The
//! playback is proved to show, at each tick, precisely the pattern the
//! compiled schedule denotes.

use vstd::prelude::*;
use crate::brightness::CYCLE_TICKS;
use crate::display::{Display, LedOp, TimerOp};
use crate::frame::{PlanModel, pattern_at, plan_wf, lemma_pattern_window};
use crate::matrix::MATRIX_ROWS;

verus! {

/// The playback record of one row slot.
pub struct SlotTrace {
    /// The matrix row lit during the slot.
    pub row: usize,
    /// One entry per tick of the slot: the column pattern lit at that
    /// tick, bit `c` standing for column `c`.
    pub patterns: Vec<u16>,
}

/// Plays one full row slot of the display: the primary interrupt that
/// starts the next row, then every secondary alarm the engine programs,
/// at exactly the ticks it asks for.
///
/// The recorded trace equals the compiled schedule's meaning: at every
/// tick `t` of the slot, the columns of `pattern_at` of the row's plan in
/// the active frame.
#[verifier::rlimit(100)]
pub fn run_slot(d: &mut Display) -> (tr: SlotTrace)
    requires
        old(d).wf(),
    ensures
        final(d).wf(),
        final(d).spec_frame() == old(d).spec_frame(),
        final(d).spec_row() == (old(d).spec_row() + 1) % (MATRIX_ROWS as int),
        final(d).spec_current() == old(d).spec_frame()[final(d).spec_row()],
        final(d).spec_next_event() == final(d).spec_current().events.len(),
        tr.row as int == final(d).spec_row(),
        tr.patterns@.len() == CYCLE_TICKS,
        forall|t: int| 0 <= t < CYCLE_TICKS ==>
            tr.patterns@[t] == pattern_at(final(d).spec_current(), t),
{
    let a0 = d.step(true, false);
    let ghost plan = d.spec_current();
    let (row, first_cols): (usize, u16) = match a0.led {
        LedOp::SelectRow { row, cols } => (row, cols),
        _ => {
            proof {
                assert(false);
            }
            (0, 0)
        }
    };
    let mut cur: u16 = first_cols;
    let mut sec_enabled: bool;
    let mut sec_at: u16;
    match a0.timer {
        TimerOp::Program { offset } => {
            sec_enabled = true;
            sec_at = offset;
        }
        TimerOp::Disable => {
            sec_enabled = false;
            sec_at = 0;
        }
        TimerOp::Keep => {
            proof {
                assert(false);
            }
            sec_enabled = false;
            sec_at = 0;
        }
    }
    let mut patterns: Vec<u16> = Vec::new();
    let mut t: u16 = 0;
    while t < CYCLE_TICKS
        invariant
            d.wf(),
            plan_wf(plan),
            d.spec_current() == plan,
            d.spec_row() == row as int,
            t <= CYCLE_TICKS,
            patterns@.len() == t,
            forall|i: int| 0 <= i < t ==> patterns@[i] == pattern_at(plan, i),
            sec_enabled == (d.spec_next_event() < plan.events.len()),
            !sec_enabled ==> d.spec_next_event() == plan.events.len(),
            sec_enabled ==> sec_at == plan.events[d.spec_next_event()].offset && t <= sec_at,
            cur == (if d.spec_next_event() == 0 {
                plan.initial
            } else {
                plan.events[d.spec_next_event() - 1].pattern
            }),
            d.spec_next_event() > 0 ==> plan.events[d.spec_next_event() - 1].offset <= t,
            d.spec_frame() == old(d).spec_frame(),
        decreases CYCLE_TICKS - t,
    {
        if sec_enabled && t == sec_at {
            let a = d.step(false, true);
            match a.led {
                LedOp::SetCols { cols } => cur = cols,
                _ => {
                    proof {
                        assert(false);
                    }
                }
            }
            match a.timer {
                TimerOp::Program { offset } => {
                    sec_at = offset;
                }
                TimerOp::Disable => {
                    sec_enabled = false;
                }
                TimerOp::Keep => {
                    proof {
                        assert(false);
                    }
                }
            }
        }
        proof {
            lemma_pattern_window(plan.initial, plan.events, d.spec_next_event(), t as int);
        }
        patterns.push(cur);
        t += 1;
    }
    proof {
        if d.spec_next_event() < plan.events.len() {
            assert(sec_at < CYCLE_TICKS);
            assert(false);
        }
    }
    SlotTrace { row, patterns }
}

/// Plays one full refresh cycle: the three row slots in succession, rows
/// advancing in order and wrapping after the last.  Each slot's trace
/// equals the meaning of that row's schedule in the active frame.
#[verifier::rlimit(100)]
pub fn run_cycle(d: &mut Display) -> (trs: Vec<SlotTrace>)
    requires
        old(d).wf(),
    ensures
        final(d).wf(),
        final(d).spec_frame() == old(d).spec_frame(),
        final(d).spec_row() == old(d).spec_row(),
        trs@.len() == MATRIX_ROWS,
        forall|i: int| 0 <= i < MATRIX_ROWS ==>
            (#[trigger] trs@[i]).row as int == (old(d).spec_row() + 1 + i) % (MATRIX_ROWS as int),
        forall|i: int| 0 <= i < MATRIX_ROWS ==> (#[trigger] trs@[i]).patterns@.len() == CYCLE_TICKS,
        forall|i: int, t: int| 0 <= i < MATRIX_ROWS && 0 <= t < CYCLE_TICKS ==>
            #[trigger] trs@[i].patterns@[t]
                == pattern_at(old(d).spec_frame()[(old(d).spec_row() + 1 + i) % (MATRIX_ROWS as int)], t),
{
    let mut trs: Vec<SlotTrace> = Vec::new();
    let tr0 = run_slot(d);
    trs.push(tr0);
    let tr1 = run_slot(d);
    trs.push(tr1);
    let tr2 = run_slot(d);
    trs.push(tr2);
    trs
}

} // verus!
