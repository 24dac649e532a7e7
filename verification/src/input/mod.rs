//! Abstractions of the input peripherals.

pub mod activity;
pub mod buffer;
pub mod button;
pub mod control;
