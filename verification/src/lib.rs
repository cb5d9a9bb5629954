//! MAVLink v1/v2 framing: headers, frames, the wire codec and the
//! portable frame envelope, generic over a message catalogue.
//!
//! Frames are read from bytes in memory and written to a vector. `wire`
//! holds the byte layout, `read` and `write` the codec, and `laws` what is
//! proved of the two together. `message` is what a catalogue has to offer,
//! and `raw` a catalogue of one message. `frame` holds the envelope, and
//! `connection` the address dispatcher, the connection contract and the
//! rules that a transport follows when it sends.

pub mod buffer;
pub mod checksum;
pub mod connection;
pub mod endian;
pub mod frame;
pub mod header;
pub mod laws;
pub mod message;
pub mod raw;
pub mod read;
pub mod reader;
pub mod wire;
pub mod write;

pub use crate::header::{MavHeader, MavlinkVersion, MAV_STX, MAV_STX_V2};
pub use crate::connection::{
    connect, ConnectError, Endpoint, MavConnection, SendState, Transport, Transports, UdpPeer,
};
pub use crate::frame::MavFrame;
pub use crate::message::Message;
pub use crate::raw::RawMessage;
pub use crate::read::{read_raw_frame, read_v1_msg, read_v2_msg, read_versioned_msg, ReadError};
pub use crate::reader::ByteReader;
pub use crate::wire::RawFrame;
pub use crate::write::{write_v1_msg, write_v2_msg, write_versioned_msg, WriteError};
