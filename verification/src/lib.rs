//! Suggests free thirty-minute meeting slots.
//!
//! Busy intervals are taken from calendar events, a regular grid of candidate
//! slots is laid over a search window, the slots that collide with a busy
//! interval (widened by a transition buffer) are dropped, and the remaining
//! ones are ranked with a preference for mornings.
//!
//! Every executable function carries a contract that Verus proves. The few
//! calls into `chrono` and `chrono_tz` are made by private functions marked
//! `external_body`; their contracts are believed, not proved.

pub mod instant;
pub mod calendar;
pub mod error;
pub mod grid;
pub mod interval;
pub mod ranking;
pub mod suggest;
pub mod window;
pub mod zone;
