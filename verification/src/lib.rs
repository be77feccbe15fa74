//! Door state tracking for a hackspace: one shared door status, fed by a
//! message bus, watched by a switch, and rendered into a wiki fragment and a
//! status document.
//!
//! The library holds the rules. It does no I/O: callers read files, sockets and
//! pins, hand over plain values, and carry out what the library decides.

pub mod bus;
pub mod calendar;
pub mod clock;
pub mod decimal;
pub mod document;
pub mod sensor;
pub mod settings;
pub mod sitenav;
pub mod status;
pub mod text;
