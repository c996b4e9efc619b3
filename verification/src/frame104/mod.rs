//! IEC 60870-5-104: APCI / APDU framing and the connection state machine.

pub mod apdu;
pub mod codec;
pub mod conduct;
pub mod laws;
pub mod octets;
pub mod seq;
pub mod state;

pub use apdu::{Apdu, ApduPayload, UFunction, MAX_APDU_LEN, MAX_ASDU_LEN};
pub use codec::{Codec, START};
pub use seq::SeqNo;
pub use state::{Action, Config, Connection, DisconnectReason, Input, Role, State};
