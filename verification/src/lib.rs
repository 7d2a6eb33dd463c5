//! A byte-stream transport carried over raw Ethernet frames.
//!
//! The crate holds the framing logic of the transport: how an outgoing byte
//! stream is cut into MTU-bounded frames, how incoming frames are turned back
//! into a byte stream, and the rules that govern a duplex session's lifetime.
//! Reading, writing and the raw channel itself are left to the caller.
//!
//! - [`address`] and [`frame`]: hardware addresses, frames and their layout
//!   on the wire, which is `pnet`'s.
//! - [`config`]: the settings of a session.
//! - [`chunking`] and [`chunker`]: what the frames of a stream are, and the
//!   code that makes them.
//! - [`reassembler`]: what is done to the output for the frames received.
//! - [`session`]: the choice of the interface and the life of a session.
//! - [`cli`]: the meaning of the command line.
//! - [`laws`]: what holds of every stream and every sequence of frames.

pub mod address;
pub mod chunker;
pub mod chunking;
pub mod cli;
pub mod config;
pub mod frame;
pub mod laws;
pub mod reassembler;
pub mod session;
