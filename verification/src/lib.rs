//! A driver core for the MFRC522 contactless reader: the register map, register
//! access over a byte-oriented bus, the FIFO, command execution and one
//! transmit-and-receive exchange.
//!
//! The driver is generic over its two collaborators, a bus and a clock, see
//! [`transport`]. [`sim`] holds a simulated chip to run it against, and
//! [`laws`] what is proved of the driver on that chip.
pub mod access;
pub mod channel;
pub mod command;
pub mod error;
pub mod fifo;
pub mod laws;
pub mod model;
pub mod register;
pub mod session;
pub mod sim;
pub mod transport;
