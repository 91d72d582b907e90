//! Transport construction and I/O mapping for ChipWhisperer debug boards.
//!
//! A logical request ("the GPIO line of `RESET`", "the UART of role `console`") is
//! resolved through a board's declarative pin table into a physical address, and a
//! transport is built on exactly one attached device, owning its opened handles.
pub mod board;
pub mod chip_whisperer;
pub mod discovery;
pub mod error;
pub mod io_mapper;
pub mod opts;
pub mod registry;
pub mod uart_list;

pub use chip_whisperer::{create, Transport};
pub use opts::{BackendOpts, ChipWhispererOpts};
