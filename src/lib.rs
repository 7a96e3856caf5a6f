//! A duplex WebSocket session layer: an outbound queue with backpressure and a
//! close handshake, and an inbound stream that reassembles fragmented messages.
//!
//! Frames arrive and leave already parsed; the transport and the handshake are
//! left to the caller.

pub mod close;
pub mod frame;
pub mod inbound;
pub mod laws;
pub mod outbound;

pub use close::{ClosePhase, CloseState};
pub use frame::{decode, encode, CloseReason, Frame, Message, OpCode, ProtocolError};
pub use inbound::MessageStream;
pub use outbound::{Connection, Pull, SendError};
