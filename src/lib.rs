//! A small remote-procedure-call core: a length-prefixed frame codec, the
//! two-case error envelope carried by every reply, and the per-connection
//! decisions of the calling and the serving side.
pub mod buffer;
pub mod client;
pub mod codec;
pub mod envelope;
pub mod network;
pub mod protocol;
