//! A bead-plate wall that a community votes on, week by week.
//!
//! The wall is 27 plates wide and 12 plates high; each plate is 30 x 30
//! beads in one of ten approved colors.  Members upload plate designs,
//! vote on designs and on which plate to replace next, and each week the
//! winning design is placed on the winning plate.  Everything that happens
//! is an event in an append-only log, and every view of the wall is a
//! replay of that log.

pub mod palette;
pub mod wall;
pub mod bmp;
pub mod events;
pub mod log;
pub mod voting;
pub mod week;
pub mod upload;
pub mod actions;
pub mod views;
pub mod codec;
pub mod laws;
