//! A catalogue of one message whose payload stays as raw bytes.

use vstd::prelude::*;
use vstd::slice::slice_to_vec;
use crate::header::MavlinkVersion;
use crate::laws::{id_fits, representable};
use crate::message::Message;
use crate::wire::MAX_PAYLOAD_LEN;

verus! {

/// `payload` followed by as many zero bytes as it takes to reach `len`.
pub open spec fn zero_extended(payload: Seq<u8>, len: nat) -> Seq<u8> {
    Seq::new(len, |i: int| if i < payload.len() { payload[i] } else { 0u8 })
}

/// The array that holds exactly the bytes of `bytes`.
pub open spec fn array_of<const LEN: usize>(bytes: Seq<u8>) -> [u8; LEN] {
    choose|a: [u8; LEN]| a@ == bytes
}

/// A message of one fixed id and one fixed length whose payload is kept as
/// the bytes it travels as. `ID` is the message id, `EXTRA_CRC` the checksum
/// seed that the dialect assigns to that id, and `LEN` the full length of
/// the payload.
///
/// As a catalogue it knows this one message: it parses a payload of at most
/// `LEN` bytes under `ID`, filling up with zero bytes, and nothing else.
#[derive(Debug, Copy, Clone, PartialEq, Eq)]
pub struct RawMessage<const ID: u32, const EXTRA_CRC: u8, const LEN: usize> {
    pub payload: [u8; LEN],
}

impl<const ID: u32, const EXTRA_CRC: u8, const LEN: usize> Message for RawMessage<
    ID,
    EXTRA_CRC,
    LEN,
> {
    open spec fn spec_message_id(&self) -> u32 {
        ID
    }

    open spec fn spec_ser(&self) -> Seq<u8> {
        self.payload@
    }

    open spec fn spec_parse(version: MavlinkVersion, id: u32, payload: Seq<u8>) -> Option<Self> {
        if id == ID && payload.len() <= LEN {
            Some(RawMessage { payload: array_of::<LEN>(zero_extended(payload, LEN as nat)) })
        } else {
            None
        }
    }

    open spec fn spec_extra_crc(id: u32) -> u8 {
        if id == ID {
            EXTRA_CRC
        } else {
            0
        }
    }

    fn message_id(&self) -> (id: u32) {
        ID
    }

    fn ser(&self) -> (payload: Vec<u8>) {
        slice_to_vec(self.payload.as_slice())
    }

    fn parse(version: MavlinkVersion, id: u32, payload: &[u8]) -> (msg: Option<Self>) {
        if id != ID || payload.len() > LEN {
            return None;
        }
        let mut buf = [0u8; LEN];
        let mut i: usize = 0;
        while i < payload.len()
            invariant
                i <= payload@.len() <= LEN,
                forall|j: int| 0 <= j < i ==> buf@[j] == payload@[j],
                forall|j: int| i <= j < LEN ==> buf@[j] == 0u8,
            decreases payload@.len() - i,
        {
            buf[i] = payload[i];
            i += 1;
        }
        assert(buf@ =~= zero_extended(payload@, LEN as nat));
        assert(buf =~= array_of::<LEN>(zero_extended(payload@, LEN as nat)));
        Some(RawMessage { payload: buf })
    }

    fn extra_crc(id: u32) -> (seed: u8) {
        if id == ID {
            EXTRA_CRC
        } else {
            0
        }
    }
}

/// Parsing the payload of a raw message under its own id gives the message
/// back, in either version. So a raw message of at most 255 bytes whose id
/// fits the id field of a version can travel in a frame of that version and
/// come back.
pub proof fn law_raw_message_parses_back<const ID: u32, const EXTRA_CRC: u8, const LEN: usize>(
    version: MavlinkVersion,
    msg: RawMessage<ID, EXTRA_CRC, LEN>,
)
    ensures
        RawMessage::<ID, EXTRA_CRC, LEN>::spec_parse(
            version,
            msg.spec_message_id(),
            msg.spec_ser(),
        ) == Some(msg),
        LEN <= MAX_PAYLOAD_LEN && id_fits(version, ID) ==> representable(version, msg),
{
    assert(msg.payload@ =~= zero_extended(msg.payload@, LEN as nat));
    assert(msg.payload =~= array_of::<LEN>(zero_extended(msg.payload@, LEN as nat)));
}

} // verus!
