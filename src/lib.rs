//! Randomized, conflict-aware scheduling of a batch of tasks, and the
//! arithmetic that an executor needs to run the resulting timetable.

pub mod clock;
pub mod engine;
pub mod input;
pub mod program;
