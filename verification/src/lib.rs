//! Logic of a small timer-interrupt LED blinker.
//!
//! The firmware drives one or two LEDs from hardware interrupt handlers.  All
//! decisions — which pin to drive to which level, when a timer must be
//! acknowledged, what the one-time bring-up has to do and in what order — are
//! made here, as verified state machines that map an event to a new state and
//! a list of hardware actions.  The thin unverified shell around this crate
//! performs those actions on the actual peripherals and feeds the interrupt
//! events back in.

pub mod action;
pub mod dual_timer;
pub mod pin;
pub mod soft_timer;
