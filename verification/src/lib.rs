//! Confidential settlement primitives: a collateralized lending protocol and a
//! payroll disbursement protocol whose monetary balances stay encrypted
//! end-to-end. The arithmetic the secure computation network performs over
//! secret operands is specified and proved here as plain integer contracts;
//! the two-phase request/callback settlement flow is modeled as verified state
//! transitions over plain records.

pub mod addresses;
pub mod bytes;
pub mod circuit;
pub mod codec;
pub mod errors;
pub mod instructions;
pub mod lending;
pub mod payroll;
pub mod registry;
pub mod state;
