//! FernQ: a lightweight message queue with rooms.
//!
//! The `protocol` module holds the binary wire format (framing, CRC
//! validation, fragmentation of large messages, heartbeats), the JSON
//! message layer and the connection URL handshake.  The `storage` and
//! `room` modules hold the decisions the server daemon makes about rooms,
//! connections and message routing.

pub mod control;
pub mod protocol;
pub mod room;
pub mod storage;
