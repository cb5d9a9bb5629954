//! Connections: the address dispatcher, the connection contract, and the
//! sequence discipline of the send side.

use vstd::prelude::*;
use crate::frame::MavFrame;
use crate::header::{MavHeader, MavlinkVersion};
use crate::message::Message;
use crate::wire::{encoded, v1_body, v2_body};
use crate::write::{writable, write_versioned_msg, WriteError};

verus! {

/// The transports that an address can name.
#[derive(Debug, Copy, Clone, PartialEq, Eq, Structural)]
pub enum Transport {
    /// `tcpin:<addr>:<port>`: a TCP server that accepts one connection.
    TcpIn,
    /// `tcpout:<addr>:<port>`: a TCP client.
    TcpOut,
    /// `udpin:<addr>:<port>`: a UDP server that learns its peer from the
    /// first datagram it receives.
    UdpIn,
    /// `udpout:<addr>:<port>`: a UDP client.
    UdpOut,
    /// `serial:<port>:<baudrate>`: a serial port.
    Serial,
}

/// The transports that a build supports.
#[derive(Debug, Copy, Clone, PartialEq, Eq, Structural)]
pub struct Transports {
    pub tcp: bool,
    pub udp: bool,
    pub direct_serial: bool,
}

/// What an address asks to be opened: the transport, and the part of the
/// address behind the scheme, which the transport itself interprets.
#[derive(Debug, Clone, PartialEq, Eq)]
pub struct Endpoint {
    pub transport: Transport,
    pub address: String,
}

/// Why an address names no connection.
#[derive(Debug, Copy, Clone, PartialEq, Eq, Structural)]
pub enum ConnectError {
    /// The address is not available: its scheme is unknown, or its
    /// transport is not part of the build.
    ProtocolUnsupported,
}

impl ConnectError {
    /// The text of the error.
    pub fn message(&self) -> (text: &'static str)
        ensures
            text@ == "Protocol unsupported"@,
    {
        "Protocol unsupported"
    }
}

impl Transport {
    /// The scheme that names this transport, colon included.
    pub open spec fn scheme(self) -> Seq<char> {
        match self {
            Transport::TcpIn => "tcpin:"@,
            Transport::TcpOut => "tcpout:"@,
            Transport::UdpIn => "udpin:"@,
            Transport::UdpOut => "udpout:"@,
            Transport::Serial => "serial:"@,
        }
    }
}

impl Transports {
    /// Whether the build supports the transport.
    pub open spec fn supports(self, transport: Transport) -> bool {
        match transport {
            Transport::TcpIn | Transport::TcpOut => self.tcp,
            Transport::UdpIn | Transport::UdpOut => self.udp,
            Transport::Serial => self.direct_serial,
        }
    }
}

/// The transport whose scheme the address begins with, if any.
pub open spec fn transport_of(address: Seq<char>) -> Option<Transport> {
    if Transport::TcpOut.scheme().is_prefix_of(address) {
        Some(Transport::TcpOut)
    } else if Transport::TcpIn.scheme().is_prefix_of(address) {
        Some(Transport::TcpIn)
    } else if Transport::UdpOut.scheme().is_prefix_of(address) {
        Some(Transport::UdpOut)
    } else if Transport::UdpIn.scheme().is_prefix_of(address) {
        Some(Transport::UdpIn)
    } else if Transport::Serial.scheme().is_prefix_of(address) {
        Some(Transport::Serial)
    } else {
        None
    }
}

/// Whether `s` begins with `prefix`.
fn starts_with(s: &str, prefix: &str) -> (found: bool)
    ensures
        found == prefix@.is_prefix_of(s@),
{
    let n = prefix.unicode_len();
    if s.unicode_len() < n {
        return false;
    }
    let mut i: usize = 0;
    while i < n
        invariant
            i <= n == prefix@.len() <= s@.len(),
            forall|j: int| 0 <= j < i ==> s@[j] == prefix@[j],
        decreases n - i,
    {
        if s.get_char(i) != prefix.get_char(i) {
            assert(s@.subrange(0, n as int)[i as int] != prefix@[i as int]);
            return false;
        }
        i += 1;
    }
    assert(prefix@ =~= s@.subrange(0, n as int));
    true
}

/// The endpoint of a transport whose scheme the address begins with.
fn endpoint(transport: Transport, address: &str, scheme: &str) -> (e: Endpoint)
    requires
        scheme@.is_prefix_of(address@),
    ensures
        e.transport == transport,
        e.address@ == address@.skip(scheme@.len() as int),
{
    let rest = address.substring_char(scheme.unicode_len(), address.unicode_len());
    Endpoint { transport, address: String::from_str(rest) }
}

/// Finds what a MAVLink address asks to be opened.
///
/// The address must be in one of the following formats:
///
///  * `tcpin:<addr>:<port>` to create a TCP server, listening for incoming connections
///  * `tcpout:<addr>:<port>` to create a TCP client
///  * `udpin:<addr>:<port>` to create a UDP server, listening for incoming packets
///  * `udpout:<addr>:<port>` to create a UDP client
///  * `serial:<port>:<baudrate>` to create a serial connection
///
/// The scheme is looked at once. An address with another scheme, or with the
/// scheme of a transport that the build does not support, is refused as
/// unsupported.
pub fn connect(address: &str, enabled: Transports) -> (res: Result<Endpoint, ConnectError>)
    ensures
        match transport_of(address@) {
            Some(transport) if enabled.supports(transport) => {
                &&& res is Ok
                &&& res->Ok_0.transport == transport
                &&& res->Ok_0.address@ == address@.skip(transport.scheme().len() as int)
            },
            _ => res == Err::<Endpoint, ConnectError>(ConnectError::ProtocolUnsupported),
        },
{
    if starts_with(address, "tcpout:") {
        if enabled.tcp {
            Ok(endpoint(Transport::TcpOut, address, "tcpout:"))
        } else {
            Err(ConnectError::ProtocolUnsupported)
        }
    } else if starts_with(address, "tcpin:") {
        if enabled.tcp {
            Ok(endpoint(Transport::TcpIn, address, "tcpin:"))
        } else {
            Err(ConnectError::ProtocolUnsupported)
        }
    } else if starts_with(address, "udpout:") {
        if enabled.udp {
            Ok(endpoint(Transport::UdpOut, address, "udpout:"))
        } else {
            Err(ConnectError::ProtocolUnsupported)
        }
    } else if starts_with(address, "udpin:") {
        if enabled.udp {
            Ok(endpoint(Transport::UdpIn, address, "udpin:"))
        } else {
            Err(ConnectError::ProtocolUnsupported)
        }
    } else if starts_with(address, "serial:") {
        if enabled.direct_serial {
            Ok(endpoint(Transport::Serial, address, "serial:"))
        } else {
            Err(ConnectError::ProtocolUnsupported)
        }
    } else {
        Err(ConnectError::ProtocolUnsupported)
    }
}

/// What was received, packed into a frame of the given protocol version; an
/// error stays as it is.
pub open spec fn tagged<M: Message, E>(
    received: Result<(MavHeader, M), E>,
    version: MavlinkVersion,
) -> Result<MavFrame<M>, E> {
    match received {
        Ok((header, msg)) => Ok(MavFrame { header, msg, protocol_version: version }),
        Err(e) => Err(e),
    }
}

/// Packs what a connection received into a frame of the connection's
/// protocol version, and hands an error on unchanged.
pub fn received_frame<M: Message, E>(
    received: Result<(MavHeader, M), E>,
    version: MavlinkVersion,
) -> (res: Result<MavFrame<M>, E>)
    ensures
        res == tagged(received, version),
{
    match received {
        Ok((header, msg)) => Ok(MavFrame { header, msg, protocol_version: version }),
        Err(e) => Err(e),
    }
}

/// The send side of a connection, without its transport: the protocol
/// version it speaks and the sequence number that its next frame carries.
///
/// The transport asks for the bytes of the next frame, writes them, and
/// counts the frame as sent once the write has succeeded.
#[derive(Debug, Copy, Clone, PartialEq, Eq, Structural)]
pub struct SendState {
    pub protocol_version: MavlinkVersion,
    pub sequence: u8,
}

impl SendState {
    /// The header that goes on the wire: the caller's, with the
    /// connection's sequence number in place of the caller's.
    pub open spec fn stamped(self, header: MavHeader) -> MavHeader {
        MavHeader {
            sequence: self.sequence,
            system_id: header.system_id,
            component_id: header.component_id,
        }
    }

    /// The state after one more frame was sent: the sequence number is one
    /// higher, and 0 after 255.
    pub open spec fn advanced(self) -> SendState {
        SendState {
            protocol_version: self.protocol_version,
            sequence: if self.sequence == 255 {
                0
            } else {
                (self.sequence + 1) as u8
            },
        }
    }

    /// The state after `n` more frames were sent.
    pub open spec fn after_sends(self, n: nat) -> SendState
        decreases n,
    {
        if n == 0 {
            self
        } else {
            self.after_sends((n - 1) as nat).advanced()
        }
    }

    /// The bytes of the next frame: the message under the caller's system
    /// and component id and the connection's own sequence number. Nothing is
    /// counted as sent yet.
    pub fn next_frame<M: Message>(&self, header: &MavHeader, data: &M) -> (res: Result<
        Vec<u8>,
        WriteError,
    >)
        ensures
            writable(*data) ==> res is Ok && res->Ok_0@ == encoded(
                self.protocol_version,
                self.stamped(*header),
                *data,
            ),
            !writable(*data) ==> res is Err && res->Err_0 == WriteError::PayloadTooLong,
    {
        let stamped = MavHeader {
            sequence: self.sequence,
            system_id: header.system_id,
            component_id: header.component_id,
        };
        let mut frame = Vec::new();
        match write_versioned_msg(&mut frame, self.protocol_version, stamped, data) {
            Ok(()) => {
                assert(frame@ =~= encoded(self.protocol_version, stamped, *data));
                Ok(frame)
            },
            Err(e) => Err(e),
        }
    }

    /// Counts one frame as sent: the sequence number goes up by one and
    /// wraps at 256.
    pub fn frame_sent(&mut self)
        ensures
            *final(self) == old(self).advanced(),
    {
        self.sequence = self.sequence.wrapping_add(1);
    }
}

/// Where a UDP connection sends to. A client knows its peer from the start.
/// A server learns it from the first datagram that it receives, and keeps
/// it; until then it has nowhere to send to.
#[derive(Debug, Copy, Clone, PartialEq, Eq)]
pub struct UdpPeer<A> {
    pub server: bool,
    pub dest: Option<A>,
}

impl<A> UdpPeer<A> {
    /// The peer after a datagram came in from `src`: a server without a
    /// peer takes `src` as its peer, and nothing else changes.
    pub open spec fn heard(self, src: A) -> UdpPeer<A> {
        if self.server && self.dest is None {
            UdpPeer { server: self.server, dest: Some(src) }
        } else {
            self
        }
    }

    /// Takes note of where a datagram came from.
    pub fn heard_from(&mut self, src: A)
        ensures
            *final(self) == old(self).heard(src),
    {
        if self.server && self.dest.is_none() {
            self.dest = Some(src);
        }
    }
}

/// The position of the sequence byte in a frame of the given version.
pub open spec fn sequence_offset(version: MavlinkVersion) -> int {
    match version {
        MavlinkVersion::V1 => 2,
        MavlinkVersion::V2 => 4,
    }
}

/// Sequence monotonicity: after `n` sends on a connection whose first frame
/// carried sequence number `s`, the next frame carries `(s + n) mod 256`,
/// whatever sequence number the caller's header holds.
pub proof fn law_sequence_monotonic<M: Message>(
    state: SendState,
    n: nat,
    header: MavHeader,
    msg: M,
)
    ensures
        state.after_sends(n).protocol_version == state.protocol_version,
        state.after_sends(n).sequence == (state.sequence + n) % 256,
        state.after_sends(n).stamped(header).sequence == (state.sequence + n) % 256,
        encoded(state.protocol_version, state.after_sends(n).stamped(header), msg)[sequence_offset(
            state.protocol_version,
        )] == (state.sequence + n) % 256,
    decreases n,
{
    if n > 0 {
        law_sequence_monotonic(state, (n - 1) as nat, header, msg);
    }
    let stamped = state.after_sends(n).stamped(header);
    let id = msg.spec_message_id();
    let payload = msg.spec_ser();
    match state.protocol_version {
        MavlinkVersion::V1 => {
            let body = v1_body(stamped, id, payload);
            assert(encoded(state.protocol_version, stamped, msg)[2] == body[1]);
        },
        MavlinkVersion::V2 => {
            let body = v2_body(stamped, 0, 0, id, payload);
            assert(encoded(state.protocol_version, stamped, msg)[4] == body[3]);
        },
    }
}

/// A MAVLink connection.
///
/// What `recv` and `send` do depends on the transport behind them, so
/// nothing is promised of their results here.
pub trait MavConnection<M: Message> {
    /// The error of the transport.
    type Error;

    /// Receive a mavlink message.
    ///
    /// Blocks until a valid frame is received, ignoring invalid messages.
    fn recv(&self) -> Result<(MavHeader, M), Self::Error>;

    /// Send a mavlink message.
    fn send(&self, header: &MavHeader, data: &M) -> Result<(), Self::Error>;

    /// The protocol version that the connection is configured for.
    fn get_protocol_version(&self) -> MavlinkVersion;

    /// Write whole frame: what `send` returns for the frame's header and
    /// message.
    fn send_frame(&self, frame: &MavFrame<M>) -> (res: Result<(), Self::Error>)
        ensures
            call_ensures(Self::send, (self, &frame.header, &frame.msg), res),
    {
        self.send(&frame.header, &frame.msg)
    }

    /// Read whole frame: what `recv` returns, tagged with the connection's
    /// protocol version.
    fn recv_frame(&self) -> (res: Result<MavFrame<M>, Self::Error>)
        ensures
            exists|received: Result<(MavHeader, M), Self::Error>, version: MavlinkVersion|
                {
                    &&& #[trigger] call_ensures(Self::recv, (self,), received)
                    &&& #[trigger] call_ensures(Self::get_protocol_version, (self,), version)
                    &&& res == tagged(received, version)
                },
    {
        let received = self.recv();
        let version = self.get_protocol_version();
        received_frame(received, version)
    }

    /// Send a message with default header: what `send` returns for the
    /// header of system 255, component 0.
    fn send_default(&self, data: &M) -> (res: Result<(), Self::Error>)
        ensures
            call_ensures(
                Self::send,
                (self, &(MavHeader { system_id: 255, component_id: 0, sequence: 0 }), data),
                res,
            ),
    {
        let header = MavHeader::get_default_header();
        self.send(&header, data)
    }
}

} // verus!
