//! Driver core for a 5x5 monochrome LED matrix multiplexed over three row
//! lines, giving each LED ten perceived brightness levels by time-slicing
//! inside a fixed 6 ms row slot.
//!
//! An image (anything implementing [`Render`]) is first *compiled* into a
//! [`CompiledFrame`]: for each of the three physical rows, an initial column
//! pattern plus a short, sorted schedule of timed pattern changes.  A
//! [`Display`] then plays the active frame from a recurring timer interrupt,
//! one transition per interrupt, talking to the hardware only through the
//! [`DisplayTimer`] and [`DisplayControl`] capability traits.
//!
//! [`Render`]: image::Render
//! [`CompiledFrame`]: frame::CompiledFrame
//! [`Display`]: display::Display
//! [`DisplayTimer`]: display::DisplayTimer
//! [`DisplayControl`]: display::DisplayControl

pub mod bits;
pub mod brightness;
pub mod matrix;
pub mod image;
pub mod frame;
pub mod display;
pub mod simulate;
