//! Verified core of a receipt-printer transport layer.
//!
//! The crate holds the decisions behind three operations: describing the
//! serial ports a machine reports, sending a byte payload to a TCP endpoint,
//! and sending a byte payload to a serial port in small chunks. It performs
//! no input or output itself; a driver carries out the actions it asks for
//! and reports back what happened.

pub mod error;
pub mod listing;
pub mod order;
pub mod ports;
pub mod serial;
pub mod tcp;
pub mod text;
