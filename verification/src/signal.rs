//! The vocabulary in which the driver talks to the hardware.

use vstd::prelude::*;

verus! {

/// One of the output lines that the driver owns.
#[derive(Clone, Copy, Debug, PartialEq, Eq, Structural)]
pub enum OutputLine {
    /// Serial input of the shift register.
    SerialData,
    /// Shift clock of the shift register.
    SerialClock,
    /// Storage clock of the shift register, wired to the display's strobe.
    Latch,
    /// Register select of the display: low for instructions, high for data.
    RegisterSelect,
}

/// One thing to do on the hardware: drive a line, or let time pass.
#[derive(Clone, Copy, Debug, PartialEq, Eq, Structural)]
pub enum Signal {
    /// Drive `line` high or low.
    Level { line: OutputLine, high: bool },
    /// Block for at least `micros` microseconds.
    WaitMicros { micros: u32 },
    /// Block for at least `millis` milliseconds.
    WaitMillis { millis: u32 },
}

} // verus!
