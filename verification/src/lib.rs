//! Sans-I/O protocol layer for the IEC 60870-5-101 and IEC 60870-5-104
//! telecontrol protocols, with every wire format and every state machine
//! stated in contracts and proved.
//!
//! The crate opens no sockets and reads no clock: every entry point that
//! depends on time takes the current [`time::Instant`] as an argument.

pub mod answers;
pub mod asdu;
pub mod bits;
pub mod buf;
pub mod cache;
pub mod calendar;
pub mod control;
pub mod error;
pub mod file_transfer;
pub mod float_bits;
pub mod frame101;
pub mod frame104;
pub mod loopback;
pub mod master;
pub mod observation;
pub mod outstation;
pub mod points;
pub mod sim;
pub mod table;
pub mod text;
pub mod time;
pub mod transport;
pub mod wire;

pub use error::{Error, Result};
