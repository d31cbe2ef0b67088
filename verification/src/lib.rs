//! Scanning, debouncing and pulse encoding for a 4x3 matrix keypad.
//!
//! The keypad is read by strobing one row at a time and sampling the
//! columns under it. A key that goes down is announced by its symbol and its
//! scan index is sent as a train of timed pulses over one output line.
//!
//! - [`layout`]: rows, columns, scan indices and key symbols.
//! - [`pulse`]: the pulse train of a scan index.
//! - [`debounce`]: the stored level of every cell and the transitions
//!   between levels.
//! - [`scan`]: the scan loop as a state machine that tells its caller what to
//!   do on the hardware.
//! - [`trace`]: what holds of every run of that state machine.
//!
//! Nothing here touches hardware, allocates or blocks: the caller owns the
//! pins, the delay and the transmit channel, and performs the actions that
//! the scanner asks for.

pub mod debounce;
pub mod layout;
pub mod pulse;
pub mod scan;
pub mod trace;
