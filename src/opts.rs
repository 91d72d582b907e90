//! The options that select the device a transport is built on.
use vstd::prelude::*;

verus! {

/// Options of the ChipWhisperer backend.
#[derive(Debug, Default)]
pub struct ChipWhispererOpts {
    /// Comma-separated list of the board's UART device paths, console first; absent
    /// for discovery.
    pub uarts: Option<String>,
}

/// The resolved selection criteria of a backend.
#[derive(Debug, Default)]
pub struct BackendOpts {
    pub usb_vid: Option<u16>,
    pub usb_pid: Option<u16>,
    pub usb_serial: Option<String>,
    pub opts: ChipWhispererOpts,
}

} // verus!
