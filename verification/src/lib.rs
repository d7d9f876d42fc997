//! Verified decision logic of a WCH ISP flashing tool with kmbox extensions:
//! firmware padding and sector arithmetic, kmbox command bytes and the
//! response-echo rule of the transport layer, the command-fuzzing plan and
//! its reply classification, command-byte parsing, and EEPROM dumps.

mod bytes;
pub mod firmware;
pub mod kmbox;
pub mod parse;
pub mod fuzz;
pub mod dump;
pub mod session;
