//! A decode-and-dispatch core for a small 32-bit register machine, together
//! with a typestate example, a lifetime-annotated string splitter and the
//! counter of a progress bar.

pub mod bitfield;
pub mod pattern;
pub mod cpu;
pub mod statemachine;
pub mod strsplit;
pub mod progress;
