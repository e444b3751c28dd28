//! On-chain settlement logic for a fixed-catalog token sale: addresses derived
//! from the program identity, the instruction wire format, and the checks and
//! effects of the four transitions.

pub mod address;
pub mod error;
pub mod instruction;
pub mod processor;
pub mod ledger;
