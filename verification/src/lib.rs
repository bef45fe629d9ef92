//! Bit-banged driver logic for an HD44780-class character display that sits
//! behind a serial-in, parallel-out shift register.
//!
//! The driver never touches hardware itself. Every operation appends the
//! line levels and waits it calls for to a trace of [`signal::Signal`]s, in
//! the order in which they have to happen; whoever owns the pins and the
//! timer plays that trace.

pub mod bits;
pub mod signal;
pub mod shifter;
pub mod instruction;
pub mod lcd;
pub mod register;

pub use bits::bit_on;
pub use instruction::{ddram_address, DisplayError, Instruction};
pub use lcd::{LatchMode, Lcd};
pub use shifter::{digital_write, pulse_pin, shift_out, wait_micros, wait_millis};
pub use signal::{OutputLine, Signal};
