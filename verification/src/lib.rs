//! User-interface control logic of a tape-delay module: peripheral state,
//! tempo detection, display state machine, control queue and persistence.

pub mod action;
pub mod button;
pub mod cache;
pub mod clock;
pub mod codec;
pub mod controls;
pub mod input;
pub mod led;
pub mod mapping;
pub mod newlib;
pub mod output;
pub mod save;
pub mod store;
