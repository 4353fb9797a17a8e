//! LAN service discovery: a beacon that answers signed probes with a short
//! description of its host, and a scanner that broadcasts probes, gathers the
//! answers per source address and slows down while no new peer shows up.
//!
//! The sockets, the sleeping and the endless loops live with the caller;
//! this crate decides what to send, whom to answer, what the table of
//! beacons holds and how long to wait, and proves that it decides as its
//! contracts say. The few calls into other crates (the channels, the JSON
//! writer, the host's name, lossy UTF-8 decoding) stand in functions of
//! their own, each of which says what is taken on trust.

pub mod answers;
pub mod beacons;
pub mod broadcaster;
pub mod channel;
pub mod conf;
pub mod datagram;
pub mod hostname;
pub mod json;
pub mod listen;
pub mod server;
pub mod signature;
pub mod text;
