//! A command-driven simulator of a fixed-capacity parking lot.
//!
//! The lot is allocated once with a positive capacity; vehicles are parked
//! into the lowest-indexed empty slot, removed by slot number, and queried
//! by color or registration (case-insensitively). A small interpreter maps
//! one line of text to one operation on the lot.

pub mod casefold;
pub mod error;
pub mod interp;
pub mod laws;
pub mod lot;
pub mod messages;
