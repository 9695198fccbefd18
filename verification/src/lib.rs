//! Drivers for a resistive touch panel and an SPI-attached TFT display,
//! modelled as verified protocol state machines.
//!
//! Two independent components share nothing but an error type:
//!
//! - [`touch`]: samples a resistive-touch ADC controller, validates and
//!   debounces the raw readings, and maps them to panel pixel coordinates.
//! - [`transport`]: multiplexes one SPI byte stream and a data/command
//!   select line into the command channel and the data channel a display
//!   controller expects.
//!
//! Neither component performs I/O itself: each is a state machine whose
//! transitions are driven by the outcome of the bus operations that the
//! surrounding application performs. The application owns the physical
//! SPI bus, performs the blocking transactions, and feeds every outcome
//! back in; the contracts here pin down exactly what each outcome does to
//! the component's state and what is reported to the caller.

use vstd::prelude::*;

pub mod touch;
pub mod transport;

verus! {

/// A fault reported by the SPI transport layer during one blocking
/// transaction: bus contention, a timeout, a disconnected device.
///
/// Faults are always propagated verbatim to the caller and never retried
/// here; retry policy belongs to the layer that owns the bus. The `code`
/// carries the transport layer's own description of the fault unchanged.
#[derive(Clone, Copy, PartialEq, Eq, Structural, Debug)]
pub struct SpiFault {
    /// The transport layer's encoding of what went wrong.
    pub code: u8,
}

} // verus!
