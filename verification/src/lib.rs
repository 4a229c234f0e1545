//! A verified interpreter for a small turtle-graphics instruction language.
//!
//! The library has two halves: a line-oriented parser that turns source text
//! into a validated sequence of [`instructions::Instruction`]s, and a state
//! machine ([`state::TurtleState`]) that replays those instructions one step
//! at a time, tracking position, heading, pen state and the segments drawn
//! while the pen is down.
//!
//! Coordinates and move amounts are fixed-point numbers: an `i64` counting
//! millionths of a unit (see [`instructions::SCALE`]), so `12.5` in source
//! text is the value `12_500_000`.

pub mod instructions;
pub mod state;
pub mod text;
