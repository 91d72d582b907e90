//! Errors of transport construction and capability queries.
use vstd::prelude::*;

verus! {

/// The optional capabilities that a transport may offer.
#[derive(Clone, Copy, Debug, PartialEq, Eq, Structural)]
pub enum Capability {
    Gpio,
    Spi,
    I2c,
    Uart,
    Jtag,
    RawUsb,
}

/// Why a transport could not be built or could not serve a request.
#[derive(Debug)]
pub enum TransportError {
    /// No attached USB device passed the filters.
    DeviceNotFound,
    /// Several attached USB devices passed the filters: their positions in the
    /// enumeration, in order.
    AmbiguousDevice(Vec<usize>),
    /// The device path is already held open.
    DeviceBusy(String),
    /// The logical name is not declared for this board.
    UnknownPin(String),
    /// The backend never offers this capability.
    CapabilityUnavailable(Capability),
    /// Talking to the hardware failed.
    IoFailure(String),
}

} // verus!
