//! What can go wrong between the driver and the chip.
use vstd::prelude::*;
use crate::transport::BusError;

verus! {

/// A failure of a driver operation.
///
/// None of these is retried or corrected by the driver: each is handed to the
/// caller as it occurred.
#[derive(Debug, Clone, Copy, PartialEq, Eq, Structural)]
pub enum Error {
    /// The transport failed. The operation stopped at the failed transfer.
    Bus(BusError),
    /// More bytes were offered to the FIFO than it has room for. None of them
    /// was written.
    Overflow,
    /// More bytes were asked of the FIFO than it holds. None was taken.
    Underflow,
    /// The chip reported a fault that leaves no usable response. The byte holds
    /// the error bits as *ErrorReg* showed them.
    Chip(u8),
    /// The payload does not fit the FIFO. Nothing was sent to the chip.
    PayloadTooLarge,
    /// The chip was reset and has not been seen to come up again. Nothing was
    /// sent to it.
    ResetPending,
}

} // verus!
