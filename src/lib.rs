//! Turns a flat log of `Start` / `End` events into an indented call trace.
//!
//! The pipeline has three verified stages: [`parse`] splits the log text
//! into events, [`depth`] replays them through a stack of open frames to give
//! each one a nesting depth, and [`render`] formats each event at its depth.
//! Reading and writing streams, and reading timestamps as numbers, stay with
//! the caller.

pub mod text;
pub mod event;
pub mod parse;
pub mod depth;
pub mod render;
