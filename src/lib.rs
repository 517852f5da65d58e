//! A lightweight library for tracking time.
//!
//! A [`Sheet`] is a log of [`Event`]s, each a (possibly ongoing) period of tracked work.
//! Punching in opens a new period, punching out closes it, and [`Sheet::count_range`]
//! totals the tracked time that overlaps a window of instants.
mod clock;
pub mod event;
pub mod proofs;
pub mod sheet;

pub use event::{Duration, Event, Instant};
pub use sheet::{Sheet, SheetError, SheetStatus};
