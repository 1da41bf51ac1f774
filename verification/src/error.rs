//! The errors an operation or a command can answer with, each with the exact
//! text it is reported as.

use vstd::prelude::*;
use vstd::string::StringExecFns;
use crate::messages::{dec_rep, usize_to_string};

verus! {

/// Everything that can go wrong while allocating, parking, leaving,
/// or interpreting a command.
#[derive(Debug)]
pub enum ParkError {
    /// A second allocation was attempted.
    AlreadyAllocated,
    /// An allocation was attempted with capacity 0.
    InvalidCapacity,
    /// A slot operation was attempted before any allocation.
    NotAllocated,
    /// A park was attempted with every slot occupied.
    LotFull,
    /// A leave named a slot outside `[1, capacity]`; carries the capacity.
    InvalidSlotNumber(usize),
    /// A query matched no slot.
    NotFound,
    /// A command line matched no grammar rule; carries the original line.
    ParseError(String),
}

impl ParkError {
    /// The text this error is reported as.
    pub open spec fn message_spec(&self) -> Seq<char> {
        match self {
            ParkError::AlreadyAllocated => "Parking slots already allocated"@,
            ParkError::InvalidCapacity => "Parking lot size must be greater than 0"@,
            ParkError::NotAllocated => "Parking slots are not allocated"@,
            ParkError::LotFull => "Sorry, parking lot is full"@,
            ParkError::InvalidSlotNumber(cap) => (
                "Invalid parking place number, please choose a number in interval [1, "@
                    + dec_rep(*cap as nat) + "]"@
            ),
            ParkError::NotFound => "Not found"@,
            ParkError::ParseError(line) => "Can't parse command: "@ + line@,
        }
    }

    /// Renders the error as its report text.
    pub fn message(&self) -> (r: String)
        ensures
            r@ == self.message_spec(),
    {
        match self {
            ParkError::AlreadyAllocated => {
                let s = String::new();
                s.concat("Parking slots already allocated")
            },
            ParkError::InvalidCapacity => {
                let s = String::new();
                s.concat("Parking lot size must be greater than 0")
            },
            ParkError::NotAllocated => {
                let s = String::new();
                s.concat("Parking slots are not allocated")
            },
            ParkError::LotFull => {
                let s = String::new();
                s.concat("Sorry, parking lot is full")
            },
            ParkError::InvalidSlotNumber(cap) => {
                let mut s = String::new();
                s.append("Invalid parking place number, please choose a number in interval [1, ");
                let num = usize_to_string(*cap);
                s.append(num.as_str());
                s.append("]");
                proof {
                    assert(s@ =~= self.message_spec());
                }
                s
            },
            ParkError::NotFound => {
                let s = String::new();
                s.concat("Not found")
            },
            ParkError::ParseError(line) => {
                let mut s = String::new();
                s.append("Can't parse command: ");
                s.append(line.as_str());
                proof {
                    assert(s@ =~= self.message_spec());
                }
                s
            },
        }
    }
}

} // verus!
