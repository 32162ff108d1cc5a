//! Session engine of an SMPP client: the binary frame codec, the
//! bind / submit / unbind state machine, and the decisions of the outbound
//! driver and the inbound dispatcher, all as functions on plain values.

pub mod args;
pub mod codec;
pub mod command;
pub mod engine;
pub mod laws;
pub mod misc;
pub mod session;
pub mod text;
pub mod wire;
