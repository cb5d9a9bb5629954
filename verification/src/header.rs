//! Sender identity and protocol version of a MAVLink packet.

use vstd::prelude::*;

verus! {

/// Message framing marker for MAVLink v1.
pub const MAV_STX: u8 = 0xFE;

/// Message framing marker for MAVLink v2.
pub const MAV_STX_V2: u8 = 0xFD;

/// Metadata from a MAVLink packet header.
#[derive(Debug, Copy, Clone, PartialEq, Eq, Structural)]
pub struct MavHeader {
    pub system_id: u8,
    pub component_id: u8,
    pub sequence: u8,
}

/// Versions of the MAVLink protocol that are supported.
#[derive(Debug, Copy, Clone, PartialEq, Eq, Structural)]
pub enum MavlinkVersion {
    V1,
    V2,
}

impl MavHeader {
    /// The header of a ground control station: system 255, component 0.
    /// A connection replaces `sequence` when it sends.
    pub fn get_default_header() -> (header: MavHeader)
        ensures
            header == (MavHeader { system_id: 255, component_id: 0, sequence: 0 }),
    {
        MavHeader { system_id: 255, component_id: 0, sequence: 0 }
    }
}

impl Default for MavHeader {
    fn default() -> (header: MavHeader)
        ensures
            header == (MavHeader { system_id: 0, component_id: 0, sequence: 0 }),
    {
        MavHeader { system_id: 0, component_id: 0, sequence: 0 }
    }
}

} // verus!
