use vstd::prelude::*;

verus! {

/// Failure taxonomy of the protocol engine. Every error is fatal to the
/// operation that raised it; there is no retry or local recovery.
#[derive(Clone, Copy, Debug, PartialEq, Eq, Structural)]
pub enum EdError {
    /// Channel open/read/write/timeout failure at the byte level.
    Transport,
    /// A status-query response whose high byte is not the expected sentinel;
    /// carries the full 16-bit status word.
    BadStatus(u16),
    /// A nonzero acknowledgment/gate/response byte from the device; carries
    /// the byte value.
    DeviceError(u8),
    /// A packed date/time field that does not encode a valid calendar
    /// timestamp.
    BadDate,
    /// Malformed UTF-8 in a length-prefixed string.
    BadText,
    /// A string whose UTF-8 encoding exceeds the 16-bit length prefix.
    TooLong,
    /// The device still reports service mode after a reboot-and-reconnect
    /// attempt.
    DeviceStuck,
}

} // verus!
