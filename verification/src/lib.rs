//! Input-timing analytics for a terminal rhythm-input exercise.
//!
//! The library is the event pipeline of the exercise: a bounded sliding
//! window of press timestamps, streak/score aggregation applied once per
//! press, keymap translation of raw keys to semantic events, derivation of
//! the presented timing metrics, and the fixed-order tick scheduler that
//! moves input through those stages. Terminal input, drawing, and frame
//! pacing live outside the library and talk to it through plain values.

pub mod capture;
pub mod keymap;
pub mod presentation;
pub mod scheduler;
pub mod stats;
pub mod window;
