//! Milter protocol engine: payload codecs for commands, replies and
//! modifications, length-prefixed frames, option negotiation, modification
//! responses and the filter-side session state machine.
pub mod actions;
pub mod buffer;
pub mod commands;
pub mod decoding;
pub mod encoding;
pub mod error;
pub mod frame;
pub mod modification;
pub mod numeral;
pub mod optneg;
pub mod session;
