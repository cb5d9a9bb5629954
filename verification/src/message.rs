//! The interface that a message catalogue offers to the codec.

use vstd::prelude::*;
use crate::header::MavlinkVersion;

verus! {

/// A message of some dialect, as the codec sees it: a numeric id, a payload,
/// a parser back from id and payload, and the per-id checksum seed.
///
/// The four spec functions are the catalogue's mathematical model. Each
/// executable method returns exactly what its spec function says, so the
/// catalogue behaves as a function of its arguments and nothing else.
pub trait Message: Sized {
    /// The numeric id of this message.
    spec fn spec_message_id(&self) -> u32;

    /// The payload bytes of this message.
    spec fn spec_ser(&self) -> Seq<u8>;

    /// The message that `payload` stands for under `id`, if there is one.
    spec fn spec_parse(version: MavlinkVersion, id: u32, payload: Seq<u8>) -> Option<Self>;

    /// The checksum seed that the catalogue assigns to `id`.
    spec fn spec_extra_crc(id: u32) -> u8;

    /// Returns the numeric id of this message.
    fn message_id(&self) -> (id: u32)
        ensures
            id == self.spec_message_id(),
    ;

    /// Serialises the payload of this message.
    fn ser(&self) -> (payload: Vec<u8>)
        ensures
            payload@ == self.spec_ser(),
    ;

    /// Parses the payload of a message with the given id, or returns `None`
    /// where the catalogue does not know the id or does not accept the
    /// payload under it.
    fn parse(version: MavlinkVersion, id: u32, payload: &[u8]) -> (msg: Option<Self>)
        ensures
            msg == Self::spec_parse(version, id, payload@),
    ;

    /// Returns the checksum seed of the given id.
    fn extra_crc(id: u32) -> (seed: u8)
        ensures
            seed == Self::spec_extra_crc(id),
    ;
}

} // verus!
