//! Compiling an image into a timed per-row schedule, and what that schedule
//! means.
//!
//! A compiled row starts with every column of nonzero brightness lit.  As
//! the slot's ticks elapse, one scheduled event per *distinct* intermediate
//! brightness level clears the columns whose lit duration is over, leaving
//! the brighter ones on; columns at full brightness are never cleared and
//! simply go dark when the next row is selected.  A row whose cells are all
//! dark compiles to an empty pattern with no events at all.

use vstd::prelude::*;
use crate::bits::{bit, lemma_bit_or_one, lemma_bit_zero, lemma_or_keeps_bound,
    lemma_no_bits_means_zero};
use crate::brightness::{MAX_BRIGHTNESS, CYCLE_TICKS, level_duration, duration_of_level,
    lemma_duration_monotone, lemma_duration_positive, lemma_duration_bounds};
use crate::image::Render;
use crate::matrix::{MATRIX_ROWS, MATRIX_COLS, spec_image_coordinates, image_coordinates};

verus! {

/// One timed change within a row slot: `offset` ticks after the row was
/// selected, exactly the columns of `pattern` stay lit.
#[derive(Clone, Copy, Debug, PartialEq, Eq, Structural)]
pub struct RowEvent {
    /// Ticks from the start of the row slot, always inside the slot.
    pub offset: u16,
    /// The columns still lit from this event on, as a bit pattern.
    pub pattern: u16,
}

/// The compiled schedule of one matrix row: the columns lit when the row is
/// selected, then the events that progressively clear the dimmer ones.
#[derive(Debug, PartialEq, Eq)]
pub struct RowPlan {
    /// The columns lit at the start of the slot: every column whose cell has
    /// nonzero brightness.
    pub initial: u16,
    /// The clearing events, sorted by strictly increasing offset; at most
    /// one per intermediate brightness level actually present in the row.
    pub events: Vec<RowEvent>,
}

/// A compiled image: one [`RowPlan`] for each of the three matrix rows,
/// ready for interrupt-time playback.  Immutable once compiled.
#[derive(Debug, PartialEq, Eq)]
pub struct CompiledFrame {
    /// The row plans, indexed by matrix row.
    pub rows: Vec<RowPlan>,
}

/// The mathematical value of a [`RowPlan`].
pub struct PlanModel {
    /// The columns lit at the start of the slot.
    pub initial: u16,
    /// The clearing events in schedule order.
    pub events: Seq<RowEvent>,
}

impl View for RowPlan {
    type V = PlanModel;

    open spec fn view(&self) -> PlanModel {
        PlanModel { initial: self.initial, events: self.events@ }
    }
}

impl View for CompiledFrame {
    type V = Seq<PlanModel>;

    open spec fn view(&self) -> Seq<PlanModel> {
        Seq::new(self.rows@.len() as nat, |r: int| self.rows@[r]@)
    }
}

/// A well-formed row plan: patterns use only the nine column bits, and the
/// events are few, strictly ordered, and strictly inside the slot.
pub open spec fn plan_wf(p: PlanModel) -> bool {
    &&& p.initial < 512
    &&& p.events.len() <= 8
    &&& forall|k: int| 0 <= k < p.events.len() ==>
        0 < #[trigger] p.events[k].offset < CYCLE_TICKS && p.events[k].pattern < 512
    &&& forall|k: int| 0 <= k < p.events.len() - 1 ==>
        #[trigger] p.events[k].offset < p.events[k + 1].offset
}

/// A well-formed frame: one well-formed plan per matrix row.
pub open spec fn frame_wf(f: Seq<PlanModel>) -> bool {
    &&& f.len() == MATRIX_ROWS
    &&& forall|r: int| 0 <= r < f.len() ==> plan_wf(#[trigger] f[r])
}

/// Whether some column of the row has exactly this brightness level.
pub open spec fn level_present(lv: Seq<u8>, level: u8) -> bool {
    exists|c: int| 0 <= c < 9 && lv[c] == level
}

/// The pattern of the first `n` columns whose brightness exceeds `level`.
pub open spec fn mask_above_rec(lv: Seq<u8>, level: u8, n: int) -> u16
    decreases n,
{
    if n <= 0 {
        0u16
    } else {
        if lv[n - 1] > level {
            mask_above_rec(lv, level, n - 1) | (1u16 << ((n - 1) as u16))
        } else {
            mask_above_rec(lv, level, n - 1)
        }
    }
}

/// The pattern of the columns whose brightness exceeds `level`.
pub open spec fn mask_above(lv: Seq<u8>, level: u8) -> u16 {
    mask_above_rec(lv, level, 9)
}

/// The clearing events of a row with column levels `lv`, for the levels
/// `lo..=8` in ascending order: one event per distinct level actually
/// present, scheduled when that level's lit duration is over and leaving
/// exactly the brighter columns on.
pub open spec fn events_from(lv: Seq<u8>, lo: u8) -> Seq<RowEvent>
    decreases 9 - lo when lo <= 9
{
    if lo >= 9 {
        Seq::empty()
    } else {
        let rest = events_from(lv, (lo + 1) as u8);
        if level_present(lv, lo) {
            seq![RowEvent { offset: level_duration(lo), pattern: mask_above(lv, lo) }] + rest
        } else {
            rest
        }
    }
}

/// The compiled plan of a row with column levels `lv`.
pub open spec fn row_model(lv: Seq<u8>) -> PlanModel {
    PlanModel { initial: mask_above(lv, 0), events: events_from(lv, 1) }
}

/// The column levels of matrix row `r` under an image: the brightness of
/// the cell each wired column shows, and 0 for the two unwired positions.
pub open spec fn row_levels<T: Render>(img: &T, r: int) -> Seq<u8> {
    Seq::new(9, |c: int| match spec_image_coordinates(c, r) {
        Some(xy) => img.spec_level(xy.0 as int, xy.1 as int),
        None => 0u8,
    })
}

/// The frame an image compiles to: one row model per matrix row.
pub open spec fn frame_model<T: Render>(img: &T) -> Seq<PlanModel> {
    Seq::new(MATRIX_ROWS as nat, |r: int| row_model(row_levels(img, r)))
}

/// The schedule of a row that stays dark: nothing lit, nothing planned.
pub open spec fn blank_plan_model() -> PlanModel {
    PlanModel { initial: 0, events: Seq::empty() }
}

/// Whether every row of a frame is the dark schedule.
pub open spec fn frame_blank(f: Seq<PlanModel>) -> bool {
    forall|r: int| 0 <= r < f.len() ==> #[trigger] f[r] == blank_plan_model()
}

impl RowPlan {
    /// The schedule of a row that stays dark.
    pub fn blank() -> (p: RowPlan)
        ensures
            p@ == blank_plan_model(),
            plan_wf(p@),
    {
        let p = RowPlan { initial: 0, events: Vec::new() };
        proof {
            assert(p@.events =~= blank_plan_model().events);
        }
        p
    }

    /// A copy of the plan; the display keeps its own copy of the active
    /// row's schedule so a frame swap cannot truncate the row in progress.
    pub fn duplicate(&self) -> (p: RowPlan)
        ensures
            p@ == self@,
    {
        let mut events: Vec<RowEvent> = Vec::new();
        let mut i: usize = 0;
        while i < self.events.len()
            invariant
                i <= self.events@.len(),
                events@.len() == i,
                forall|k: int| 0 <= k < i ==> events@[k] == self.events@[k],
            decreases self.events@.len() - i,
        {
            events.push(self.events[i]);
            i += 1;
        }
        let p = RowPlan { initial: self.initial, events };
        proof {
            assert(p@.events =~= self@.events);
        }
        p
    }
}

impl CompiledFrame {
    /// The all-dark frame every display starts with.
    pub fn blank() -> (f: CompiledFrame)
        ensures
            f@.len() == MATRIX_ROWS,
            frame_blank(f@),
            frame_wf(f@),
    {
        let mut rows: Vec<RowPlan> = Vec::new();
        rows.push(RowPlan::blank());
        rows.push(RowPlan::blank());
        rows.push(RowPlan::blank());
        CompiledFrame { rows }
    }
}

/// The pattern a schedule shows at tick `t`: the pattern of the last event
/// whose offset has been reached, or the initial pattern before any.
pub open spec fn pattern_from(initial: u16, evs: Seq<RowEvent>, t: int) -> u16
    decreases evs.len(),
{
    if evs.len() == 0 {
        initial
    } else if t < evs[0].offset {
        initial
    } else {
        pattern_from(evs[0].pattern, evs.drop_first(), t)
    }
}

/// The pattern a compiled row shows at tick `t` of its slot.
pub open spec fn pattern_at(p: PlanModel, t: int) -> u16 {
    pattern_from(p.initial, p.events, t)
}

/// The meaning of a compiled row: at every tick of the slot, a column is
/// lit exactly when its cell's lit duration has not yet elapsed.
pub open spec fn plays(p: PlanModel, lv: Seq<u8>) -> bool {
    forall|t: int, c: u16| 0 <= t < CYCLE_TICKS && c < 16 ==>
        #[trigger] bit(pattern_at(p, t), c) == (c < 9 && t < level_duration(lv[c as int]))
}

/// Which bits `mask_above_rec` sets: one per column already scanned whose
/// brightness exceeds the level; and the pattern stays below 512.
pub proof fn lemma_mask_above_rec_bits(lv: Seq<u8>, level: u8, n: int)
    requires
        0 <= n <= 9,
    ensures
        mask_above_rec(lv, level, n) < 512,
        forall|c: u16| c < 16 ==>
            #[trigger] bit(mask_above_rec(lv, level, n), c) == (c < n && lv[c as int] > level),
    decreases n,
{
    if n <= 0 {
        assert forall|c: u16| c < 16 implies !bit(mask_above_rec(lv, level, n), c) by {
            lemma_bit_zero(c);
        }
    } else {
        lemma_mask_above_rec_bits(lv, level, n - 1);
        let m0 = mask_above_rec(lv, level, n - 1);
        if lv[n - 1] > level {
            lemma_or_keeps_bound(m0, (n - 1) as u16);
            assert forall|c: u16| c < 16 implies
                bit(mask_above_rec(lv, level, n), c) == (c < n && lv[c as int] > level) by {
                lemma_bit_or_one(m0, (n - 1) as u16, c);
            }
        }
    }
}

/// Which bits `mask_above` sets, and its bound.
pub proof fn lemma_mask_above_bits(lv: Seq<u8>, level: u8)
    ensures
        mask_above(lv, level) < 512,
        forall|c: u16| c < 16 ==>
            #[trigger] bit(mask_above(lv, level), c) == (c < 9 && lv[c as int] > level),
{
    lemma_mask_above_rec_bits(lv, level, 9);
}

/// When no column sits exactly at `level`, the columns above `level - 1`
/// are the columns above `level`.
proof fn lemma_mask_above_skip(lv: Seq<u8>, level: u8, n: int)
    requires
        1 <= level,
        0 <= n <= 9,
        !level_present(lv, level),
    ensures
        mask_above_rec(lv, (level - 1) as u8, n) == mask_above_rec(lv, level, n),
    decreases n,
{
    if n > 0 {
        lemma_mask_above_skip(lv, level, n - 1);
        assert(lv[n - 1] != level);
    }
}

/// The structure of a row's event schedule: at most one event per level in
/// `lo..=8`, strictly ordered, strictly inside the slot, with patterns that
/// use only the column bits.
pub proof fn lemma_events_from_wf(lv: Seq<u8>, lo: u8)
    requires
        1 <= lo <= 9,
    ensures
        events_from(lv, lo).len() <= 9 - lo,
        forall|k: int| 0 <= k < events_from(lv, lo).len() ==>
            level_duration(lo) <= #[trigger] events_from(lv, lo)[k].offset < CYCLE_TICKS
            && 0 < events_from(lv, lo)[k].offset
            && events_from(lv, lo)[k].pattern < 512,
        forall|k: int| 0 <= k < events_from(lv, lo).len() - 1 ==>
            #[trigger] events_from(lv, lo)[k].offset < events_from(lv, lo)[k + 1].offset,
    decreases 9 - lo,
{
    lemma_duration_positive(lo);
    lemma_duration_bounds(lo);
    if lo < 9 {
        lemma_events_from_wf(lv, (lo + 1) as u8);
        lemma_duration_monotone(lo, (lo + 1) as u8);
        lemma_mask_above_bits(lv, lo);
        let rest = events_from(lv, (lo + 1) as u8);
        if level_present(lv, lo) {
            let ev = RowEvent { offset: level_duration(lo), pattern: mask_above(lv, lo) };
            let evs = events_from(lv, lo);
            assert(evs == seq![ev] + rest);
            assert forall|k: int| 0 <= k < evs.len() implies
                level_duration(lo) <= #[trigger] evs[k].offset < CYCLE_TICKS
                && 0 < evs[k].offset
                && evs[k].pattern < 512 by {
                if k > 0 {
                    assert(evs[k] == rest[k - 1]);
                }
            }
            assert forall|k: int| 0 <= k < evs.len() - 1 implies
                #[trigger] evs[k].offset < evs[k + 1].offset by {
                if k > 0 {
                    assert(evs[k] == rest[k - 1]);
                    assert(evs[k + 1] == rest[k]);
                }
            }
        }
    }
}

/// The schedule coalesces by threshold, exactly: every event of the
/// levels `lo..=8` sits at the threshold of an intermediate level that is
/// present in the row, and every present intermediate level has an event
/// at its threshold.  With the offsets strictly sorted, that makes the
/// event count precisely the number of *distinct* intermediate levels
/// used — never one event per column.
pub proof fn lemma_events_coalesce(lv: Seq<u8>, lo: u8)
    requires
        1 <= lo <= 9,
    ensures
        forall|k: int| 0 <= k < events_from(lv, lo).len() ==>
            exists|l: u8| lo <= l <= 8 && level_present(lv, l)
                && #[trigger] events_from(lv, lo)[k].offset == level_duration(l),
        forall|l: u8| lo <= l <= 8 && #[trigger] level_present(lv, l) ==>
            exists|k: int| 0 <= k < events_from(lv, lo).len()
                && #[trigger] events_from(lv, lo)[k].offset == level_duration(l),
    decreases 9 - lo,
{
    if lo < 9 {
        lemma_events_coalesce(lv, (lo + 1) as u8);
        let rest = events_from(lv, (lo + 1) as u8);
        let evs = events_from(lv, lo);
        if level_present(lv, lo) {
            let ev = RowEvent { offset: level_duration(lo), pattern: mask_above(lv, lo) };
            assert(evs == seq![ev] + rest);
            assert forall|k: int| 0 <= k < evs.len() implies
                exists|l: u8| lo <= l <= 8 && level_present(lv, l)
                    && #[trigger] evs[k].offset == level_duration(l) by {
                if k == 0 {
                    assert(lo <= lo <= 8 && level_present(lv, lo)
                        && evs[0].offset == level_duration(lo));
                } else {
                    assert(evs[k] == rest[k - 1]);
                    let l0 = choose|l0: u8| (lo + 1) as u8 <= l0 <= 8 && level_present(lv, l0)
                        && #[trigger] rest[k - 1].offset == level_duration(l0);
                    assert(lo <= l0 <= 8 && level_present(lv, l0)
                        && evs[k].offset == level_duration(l0));
                }
            }
            assert forall|l: u8| lo <= l <= 8 && #[trigger] level_present(lv, l) implies
                exists|k: int| 0 <= k < evs.len()
                    && #[trigger] evs[k].offset == level_duration(l) by {
                if l == lo {
                    assert(evs[0].offset == level_duration(lo));
                } else {
                    assert(lo + 1 <= l && l <= 8);
                    assert(exists|k0: int| 0 <= k0 < rest.len()
                        && #[trigger] rest[k0].offset == level_duration(l));
                    let k0 = choose|k0: int| 0 <= k0 < rest.len()
                        && #[trigger] rest[k0].offset == level_duration(l);
                    assert(0 <= k0 + 1 < evs.len());
                    assert(evs[k0 + 1] == rest[k0]);
                }
            }
        } else {
            assert(evs == rest);
            assert forall|k: int| 0 <= k < evs.len() implies
                exists|l: u8| lo <= l <= 8 && level_present(lv, l)
                    && #[trigger] evs[k].offset == level_duration(l) by {
                let l0 = choose|l0: u8| (lo + 1) as u8 <= l0 <= 8 && level_present(lv, l0)
                    && #[trigger] rest[k].offset == level_duration(l0);
                assert(lo <= l0 <= 8 && level_present(lv, l0)
                    && evs[k].offset == level_duration(l0));
            }
        }
    }
}

/// A compiled row model is well formed.
pub proof fn lemma_row_model_wf(lv: Seq<u8>)
    ensures
        plan_wf(row_model(lv)),
{
    lemma_events_from_wf(lv, 1);
    lemma_mask_above_bits(lv, 0);
}

/// The playback of the schedule for the levels `lo..=8`, starting from the
/// pattern of the columns not yet cleared, shows each column for exactly
/// its lit duration — provided every level already cleared is indeed over.
proof fn lemma_plays_from(lv: Seq<u8>, lo: u8, t: int)
    requires
        1 <= lo <= 9,
        0 <= t < CYCLE_TICKS,
        forall|c: int| 0 <= c < 9 && #[trigger] lv[c] < lo ==> level_duration(lv[c]) <= t,
    ensures
        forall|c: u16| c < 16 ==>
            #[trigger] bit(pattern_from(mask_above(lv, (lo - 1) as u8), events_from(lv, lo), t), c)
                == (c < 9 && t < level_duration(lv[c as int])),
    decreases 9 - lo,
{
    lemma_mask_above_bits(lv, (lo - 1) as u8);
    if lo == 9 {
        assert forall|c: u16| c < 16 implies
            #[trigger] bit(pattern_from(mask_above(lv, 8), events_from(lv, 9), t), c)
                == (c < 9 && t < level_duration(lv[c as int])) by {
            if c < 9 && lv[c as int] <= 8 {
                assert(lv[c as int] < lo);
            }
        }
    } else {
        let rest = events_from(lv, (lo + 1) as u8);
        if level_present(lv, lo) {
            let ev = RowEvent { offset: level_duration(lo), pattern: mask_above(lv, lo) };
            let evs = events_from(lv, lo);
            assert(evs == seq![ev] + rest);
            assert(evs[0] == ev);
            assert(evs.drop_first() =~= rest);
            if t < level_duration(lo) {
                assert forall|c: u16| c < 16 implies
                    #[trigger] bit(pattern_from(mask_above(lv, (lo - 1) as u8), evs, t), c)
                        == (c < 9 && t < level_duration(lv[c as int])) by {
                    if c < 9 {
                        let l = lv[c as int];
                        if l >= lo {
                            if l <= MAX_BRIGHTNESS && l > lo {
                                lemma_duration_monotone(lo, l);
                            }
                            lemma_duration_bounds(lo);
                            assert(level_duration(l) >= level_duration(lo));
                        } else {
                            assert(level_duration(l) <= t);
                        }
                    }
                }
            } else {
                lemma_plays_from(lv, (lo + 1) as u8, t);
                assert(((lo + 1) - 1) as u8 == lo);
                assert(pattern_from(mask_above(lv, (lo - 1) as u8), evs, t)
                    == pattern_from(mask_above(lv, lo), rest, t));
            }
        } else {
            lemma_mask_above_skip(lv, lo, 9);
            assert(mask_above(lv, (lo - 1) as u8) == mask_above(lv, lo));
            lemma_plays_from(lv, (lo + 1) as u8, t);
            assert(((lo + 1) - 1) as u8 == lo);
        }
    }
}

/// The meaning of compilation (the round-trip law): at every tick of the
/// slot, the compiled row of any column levels shows a column exactly while
/// its level's lit duration lasts — so each column is lit for precisely
/// `level_duration` of its level, no more and no less.
pub proof fn lemma_row_plays(lv: Seq<u8>)
    ensures
        plays(row_model(lv), lv),
        plan_wf(row_model(lv)),
{
    lemma_row_model_wf(lv);
    assert forall|t: int, c: u16| 0 <= t < CYCLE_TICKS && c < 16 implies
        #[trigger] bit(pattern_at(row_model(lv), t), c)
            == (c < 9 && t < level_duration(lv[c as int])) by {
        lemma_plays_from(lv, 1, t);
        assert((1 - 1) as u8 == 0u8);
    }
}

/// A row none of whose columns sits at an intermediate level (everything
/// dark or at full brightness) schedules no event at all.
pub proof fn lemma_no_intermediate_levels(lv: Seq<u8>, lo: u8)
    requires
        1 <= lo <= 9,
        forall|c: int| 0 <= c < 9 ==> !(1 <= #[trigger] lv[c] <= 8),
    ensures
        events_from(lv, lo) == Seq::<RowEvent>::empty(),
    decreases 9 - lo,
{
    if lo < 9 {
        lemma_no_intermediate_levels(lv, (lo + 1) as u8);
        assert(!level_present(lv, lo));
    }
}

/// Reads the nine column levels of matrix row `r` from an image.
fn read_row_levels<T: Render>(image: &T, r: usize) -> (lv: Vec<u8>)
    requires
        r < MATRIX_ROWS,
    ensures
        lv@ == row_levels(image, r as int),
{
    let mut lv: Vec<u8> = Vec::new();
    let mut c: usize = 0;
    while c < MATRIX_COLS
        invariant
            c <= MATRIX_COLS,
            r < MATRIX_ROWS,
            lv@.len() == c,
            forall|i: int| 0 <= i < c ==> lv@[i] == row_levels(image, r as int)[i],
        decreases MATRIX_COLS - c,
    {
        match image_coordinates(c, r) {
            Some((x, y)) => {
                let level = image.brightness_at(x, y);
                lv.push(level);
            }
            None => {
                lv.push(0);
            }
        }
        c += 1;
    }
    proof {
        assert(lv@ =~= row_levels(image, r as int));
    }
    lv
}

/// Builds the pattern of the columns whose level exceeds `level`.
fn mask_above_exec(lv: &Vec<u8>, level: u8) -> (m: u16)
    requires
        lv@.len() == 9,
    ensures
        m == mask_above(lv@, level),
{
    let mut m: u16 = 0;
    let mut c: usize = 0;
    while c < 9
        invariant
            c <= 9,
            lv@.len() == 9,
            m == mask_above_rec(lv@, level, c as int),
        decreases 9 - c,
    {
        if lv[c] > level {
            m = m | (1u16 << (c as u16));
        }
        c += 1;
    }
    m
}

/// Says whether some column of the row sits exactly at `level`.
fn level_present_exec(lv: &Vec<u8>, level: u8) -> (r: bool)
    requires
        lv@.len() == 9,
    ensures
        r == level_present(lv@, level),
{
    let mut c: usize = 0;
    while c < 9
        invariant
            c <= 9,
            lv@.len() == 9,
            forall|i: int| 0 <= i < c ==> lv@[i] != level,
        decreases 9 - c,
    {
        if lv[c] == level {
            return true;
        }
        c += 1;
    }
    false
}

/// Compiles one matrix row of an image into its schedule.
fn compile_row<T: Render>(image: &T, r: usize) -> (plan: RowPlan)
    requires
        r < MATRIX_ROWS,
    ensures
        plan@ == row_model(row_levels(image, r as int)),
{
    let lv = read_row_levels(image, r);
    let initial = mask_above_exec(&lv, 0);
    let mut events: Vec<RowEvent> = Vec::new();
    let mut level: u8 = 8;
    while level >= 1
        invariant
            level <= 8,
            lv@.len() == 9,
            lv@ == row_levels(image, r as int),
            events@ == events_from(lv@, (level + 1) as u8),
        decreases level,
    {
        if level_present_exec(&lv, level) {
            let ev = RowEvent {
                offset: duration_of_level(level),
                pattern: mask_above_exec(&lv, level),
            };
            events.insert(0, ev);
            proof {
                assert(events@ =~= seq![ev] + events_from(lv@, (level + 1) as u8));
            }
        }
        level -= 1;
    }
    RowPlan { initial, events }
}

/// Compiles an image into a frame ready for playback.
///
/// The result is a pure function of the image's cell levels — compiling
/// equal images always yields equal frames — and each compiled row is
/// well formed and shows every column for exactly the lit duration of its
/// cell's brightness level (see [`lemma_row_plays`]).
pub fn compile<T: Render>(image: &T) -> (frame: CompiledFrame)
    ensures
        frame@ == frame_model(image),
        frame_wf(frame@),
{
    let mut rows: Vec<RowPlan> = Vec::new();
    let mut r: usize = 0;
    while r < MATRIX_ROWS
        invariant
            r <= MATRIX_ROWS,
            rows@.len() == r,
            forall|i: int| 0 <= i < r ==> rows@[i]@ == row_model(row_levels(image, i)),
        decreases MATRIX_ROWS - r,
    {
        let plan = compile_row(image, r);
        rows.push(plan);
        r += 1;
    }
    let frame = CompiledFrame { rows };
    proof {
        assert(frame@ =~= frame_model(image));
        assert forall|i: int| 0 <= i < frame@.len() implies plan_wf(#[trigger] frame@[i]) by {
            lemma_row_model_wf(row_levels(image, i));
        }
    }
    frame
}

/// In a schedule whose adjacent offsets grow strictly, any earlier offset
/// is below any later one.
pub proof fn lemma_sorted_pair(evs: Seq<RowEvent>, i: int, j: int)
    requires
        forall|k: int| 0 <= k < evs.len() - 1 ==> #[trigger] evs[k].offset < evs[k + 1].offset,
        0 <= i < j < evs.len(),
    ensures
        evs[i].offset < evs[j].offset,
    decreases j - i,
{
    if j > i + 1 {
        lemma_sorted_pair(evs, i, j - 1);
    }
}

/// The pattern a sorted schedule shows between two events: once the first
/// `k` events have elapsed and the next is still to come, the shown
/// pattern is the `k`-th event's (or the initial pattern when none has
/// elapsed yet).
pub proof fn lemma_pattern_window(initial: u16, evs: Seq<RowEvent>, k: int, t: int)
    requires
        forall|j: int| 0 <= j < evs.len() - 1 ==> #[trigger] evs[j].offset < evs[j + 1].offset,
        0 <= k <= evs.len(),
        k < evs.len() ==> t < evs[k].offset,
        k > 0 ==> evs[k - 1].offset <= t,
    ensures
        pattern_from(initial, evs, t) == (if k == 0 {
            initial
        } else {
            evs[k - 1].pattern
        }),
    decreases evs.len(),
{
    if k == 0 {
    } else {
        if k > 1 {
            lemma_sorted_pair(evs, 0, k - 1);
        }
        assert(evs[0].offset <= t);
        let rest = evs.drop_first();
        assert(forall|j: int| 0 <= j < rest.len() ==> #[trigger] rest[j] == evs[j + 1]);
        lemma_pattern_window(evs[0].pattern, rest, k - 1, t);
    }
}

/// An image with every cell dark compiles to a frame with no event in any
/// row, and playback of any of its rows never lights a single column at any
/// tick of the slot.
pub proof fn lemma_blank_image_dark<T: Render>(img: &T)
    requires
        forall|x: int, y: int| 0 <= x < 5 && 0 <= y < 5 ==> img.spec_level(x, y) == 0,
    ensures
        forall|r: int| 0 <= r < MATRIX_ROWS ==> (#[trigger] frame_model(img)[r]).events.len() == 0,
        forall|r: int| 0 <= r < MATRIX_ROWS ==> (#[trigger] frame_model(img)[r]).initial == 0,
        forall|r: int, t: int| 0 <= r < MATRIX_ROWS && 0 <= t < CYCLE_TICKS ==>
            #[trigger] pattern_at(frame_model(img)[r], t) == 0,
{
    assert forall|r: int| 0 <= r < MATRIX_ROWS implies
        (#[trigger] frame_model(img)[r]).events.len() == 0
        && frame_model(img)[r].initial == 0 by {
        let lv = row_levels(img, r);
        assert forall|c: int| 0 <= c < 9 implies #[trigger] lv[c] == 0 by {
            assert(lv[c] == match spec_image_coordinates(c, r) {
                Some(xy) => img.spec_level(xy.0 as int, xy.1 as int),
                None => 0u8,
            });
        }
        lemma_no_intermediate_levels(lv, 1);
        lemma_mask_above_bits(lv, 0);
        lemma_no_bits_means_zero(mask_above(lv, 0));
    }
    assert forall|r: int, t: int| 0 <= r < MATRIX_ROWS && 0 <= t < CYCLE_TICKS implies
        #[trigger] pattern_at(frame_model(img)[r], t) == 0 by {
        assert(frame_model(img)[r].events.len() == 0);
    }
}

/// An image with every cell at full brightness compiles rows that schedule
/// no event (so certainly at most one), and playback keeps every wired
/// column lit for the entire slot.
pub proof fn lemma_full_on_image<T: Render>(img: &T)
    requires
        forall|x: int, y: int| 0 <= x < 5 && 0 <= y < 5 ==>
            img.spec_level(x, y) == MAX_BRIGHTNESS,
    ensures
        forall|r: int| 0 <= r < MATRIX_ROWS ==> (#[trigger] frame_model(img)[r]).events.len() == 0,
        forall|r: int, t: int, c: u16| 0 <= r < MATRIX_ROWS && 0 <= t < CYCLE_TICKS && c < 16 ==>
            #[trigger] bit(pattern_at(frame_model(img)[r], t), c) == crate::matrix::wired(r, c as int),
{
    assert forall|r: int| 0 <= r < MATRIX_ROWS implies
        (#[trigger] frame_model(img)[r]).events.len() == 0 by {
        let lv = row_levels(img, r);
        assert forall|c: int| 0 <= c < 9 implies !(1 <= #[trigger] lv[c] <= 8) by {
            assert(lv[c] == match spec_image_coordinates(c, r) {
                Some(xy) => img.spec_level(xy.0 as int, xy.1 as int),
                None => 0u8,
            });
        }
        lemma_no_intermediate_levels(lv, 1);
    }
    assert forall|r: int, t: int, c: u16| 0 <= r < MATRIX_ROWS && 0 <= t < CYCLE_TICKS && c < 16 implies
        #[trigger] bit(pattern_at(frame_model(img)[r], t), c) == crate::matrix::wired(r, c as int) by {
        let lv = row_levels(img, r);
        assert(frame_model(img)[r].events.len() == 0);
        assert(pattern_at(frame_model(img)[r], t) == mask_above(lv, 0));
        lemma_mask_above_bits(lv, 0);
        if c < 9 {
            assert(lv[c as int] == match spec_image_coordinates(c as int, r) {
                Some(xy) => img.spec_level(xy.0 as int, xy.1 as int),
                None => 0u8,
            });
        }
    }
}

/// Every row of a compiled frame is well formed and means what the image
/// says: at each tick of its slot, a column is lit exactly while the lit
/// duration of its cell's level lasts.
pub proof fn lemma_frame_plays<T: Render>(img: &T)
    ensures
        forall|r: int| 0 <= r < MATRIX_ROWS ==>
            plays(#[trigger] frame_model(img)[r], row_levels(img, r)),
        forall|r: int| 0 <= r < MATRIX_ROWS ==> plan_wf(#[trigger] frame_model(img)[r]),
{
    assert forall|r: int| 0 <= r < MATRIX_ROWS implies
        plays(#[trigger] frame_model(img)[r], row_levels(img, r))
        && plan_wf(frame_model(img)[r]) by {
        lemma_row_plays(row_levels(img, r));
    }
}

/// The round trip, cell by cell: compile an image and play each row slot,
/// and the LED of every image cell is lit for exactly the lit duration of
/// that cell's brightness level — at its wired matrix position, from the
/// start of the slot to its threshold tick.
pub proof fn lemma_cell_lit_duration<T: Render>(img: &T, x: int, y: int)
    requires
        0 <= x < 5,
        0 <= y < 5,
    ensures
        forall|t: int| 0 <= t < CYCLE_TICKS ==>
            #[trigger] bit(
                pattern_at(frame_model(img)[crate::matrix::spec_led_position(x, y).0], t),
                crate::matrix::spec_led_position(x, y).1 as u16,
            ) == (t < level_duration(img.spec_level(x, y))),
{
    let r = crate::matrix::spec_led_position(x, y).0;
    let c = crate::matrix::spec_led_position(x, y).1;
    crate::matrix::lemma_wiring_total(x, y);
    let lv = row_levels(img, r);
    lemma_row_plays(lv);
    assert(lv[c] == img.spec_level(x, y));
}

/// Compilation is deterministic: it is a pure function of the cell levels,
/// so any two frames compiled from images with equal levels are equal.
pub proof fn lemma_compile_deterministic<T1: Render, T2: Render>(
    img1: &T1,
    img2: &T2,
    f1: CompiledFrame,
    f2: CompiledFrame,
)
    requires
        f1@ == frame_model(img1),
        f2@ == frame_model(img2),
        forall|x: int, y: int| 0 <= x < 5 && 0 <= y < 5 ==>
            #[trigger] img1.spec_level(x, y) == img2.spec_level(x, y),
    ensures
        f1@ == f2@,
{
    assert forall|r: int| 0 <= r < MATRIX_ROWS implies
        #[trigger] frame_model(img1)[r] == frame_model(img2)[r] by {
        assert(row_levels(img1, r) =~= row_levels(img2, r));
    }
    assert(frame_model(img1) =~= frame_model(img2));
}

} // verus!
