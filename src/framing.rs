//! Synthetic IPv4/UDP framing of captured runs.
//!
//! Each record of a capture is an IPv4 packet carrying one UDP datagram whose
//! payload is the captured bytes. The UDP ports (and the loopback addresses)
//! say which channel sent the bytes, so that generic capture tools can group
//! the two directions as one flow.
use arrayvec::ArrayVec;
use etherparse::{PacketBuilder, SlicedPacket, TransportSlice};
use vstd::prelude::*;

use crate::channel::{channel_of_port, spec_channel_of_port, UartTxChannel};

verus! {

/// Link type of the capture container: raw IPv4 packets.
pub const LINKTYPE_IPV4: u32 = 228;

/// Largest packet stored in a capture; also the container's snap length.
pub const MAX_PACKET_LEN: usize = 200;

/// Largest payload of one record: a packet's room less 32 bytes, which
/// cover the 28 bytes of IPv4 and UDP header.
pub const MAX_PAYLOAD: usize = MAX_PACKET_LEN - 32;

/// Bytes of IPv4 and UDP header in front of the payload.
pub const HEADER_LEN: usize = 28;

/// Time-to-live written into every synthetic packet.
pub const FRAME_TTL: u8 = 254;

/// A big-endian 16-bit field.
pub open spec fn be16(hi: u8, lo: u8) -> int {
    hi as int * 256 + lo as int
}

/// `f` is an option-free, unfragmented IPv4 packet carrying UDP from port
/// `sport` to port `dport`, with `payload` as the datagram's payload.
pub open spec fn frame_fields(
    f: Seq<u8>,
    src: Seq<u8>,
    dst: Seq<u8>,
    ttl: u8,
    sport: u16,
    dport: u16,
    payload: Seq<u8>,
) -> bool {
    &&& f.len() == HEADER_LEN + payload.len()
    &&& f[0] == 0x45
    &&& be16(f[2], f[3]) == f.len()
    &&& f[6] == 0x40
    &&& f[7] == 0
    &&& f[8] == ttl
    &&& f[9] == 17
    &&& f.subrange(12, 16) == src
    &&& f.subrange(16, 20) == dst
    &&& be16(f[20], f[21]) == sport
    &&& be16(f[22], f[23]) == dport
    &&& be16(f[24], f[25]) == 8 + payload.len()
    &&& f.subrange(HEADER_LEN as int, f.len() as int) == payload
}

/// A packet that slices as an option-free, unfragmented IPv4 header followed
/// by a UDP header: what every frame of [`encode_frame`] is.
pub open spec fn is_plain_udp_frame(f: Seq<u8>) -> bool {
    &&& f.len() >= HEADER_LEN
    &&& f[0] == 0x45
    &&& be16(f[2], f[3]) >= 20
    &&& f[6] % 64 == 0
    &&& f[7] == 0
    &&& f[9] == 17
}

/// Source port of a plain UDP frame.
pub open spec fn plain_source_port(f: Seq<u8>) -> int {
    be16(f[20], f[21])
}

/// Payload of a plain UDP frame.
pub open spec fn plain_payload(f: Seq<u8>) -> Seq<u8> {
    f.subrange(HEADER_LEN as int, f.len() as int)
}

/// Loopback address of the sending side of a channel.
pub open spec fn spec_source_ip(ch: UartTxChannel) -> Seq<u8> {
    match ch {
        UartTxChannel::Ctrl => seq![127u8, 0, 0, 1],
        UartTxChannel::Node => seq![127u8, 0, 0, 2],
    }
}

/// Loopback address of the receiving side of a channel.
pub open spec fn spec_dest_ip(ch: UartTxChannel) -> Seq<u8> {
    spec_source_ip(ch.spec_other())
}

/// `f` frames `payload` as sent on channel `ch`.
pub open spec fn is_frame_of(f: Seq<u8>, ch: UartTxChannel, payload: Seq<u8>) -> bool {
    frame_fields(
        f,
        spec_source_ip(ch),
        spec_dest_ip(ch),
        FRAME_TTL,
        ch.spec_port(),
        ch.spec_peer_port(),
        payload,
    )
}

/// Why a capture record could not be read as channel data.
#[derive(Debug, Clone, Copy, PartialEq, Eq, Structural)]
pub enum DecodeError {
    /// The record holds fewer bytes than the packet had.
    Truncated,
    /// The bytes are not an IPv4 packet.
    Malformed,
    /// The IPv4 packet carries no UDP datagram.
    NotUdp,
    /// The UDP source port names neither channel.
    UnknownPort(u16),
}

/// How slicing a packet failed.
#[derive(Debug, Clone, Copy, PartialEq, Eq, Structural)]
pub enum FrameFault {
    /// Not a readable IPv4 packet.
    Malformed,
    /// An IPv4 packet without a UDP datagram.
    NotUdp,
}

/// What slicing `f` as an IPv4 packet gives: `None` when it is not one,
/// `Some(None)` when it carries no UDP datagram, else the UDP source port and
/// payload.
pub uninterp spec fn ip_udp_slice(f: Seq<u8>) -> Option<Option<(u16, Seq<u8>)>>;

/// Relies on etherparse's `PacketBuilder::ipv4(..).udp(..).write`: an IPv4
/// header without options (don't-fragment set), then the UDP header, then
/// the payload, lengths filled in, into a buffer of [`MAX_PACKET_LEN`] bytes.
/// Its only failures are lengths beyond the 16-bit length fields and a full
/// output buffer; a payload of at most [`MAX_PAYLOAD`] bytes meets neither.
#[verifier::external_body]
fn build_udp_frame(
    src: [u8; 4],
    dst: [u8; 4],
    ttl: u8,
    sport: u16,
    dport: u16,
    payload: &[u8],
) -> (r: Option<Vec<u8>>)
    requires
        payload@.len() <= MAX_PAYLOAD,
    ensures
        r is Some,
        r matches Some(f) ==> frame_fields(f@, src@, dst@, ttl, sport, dport, payload@),
{
    let builder = PacketBuilder::ipv4(src, dst, ttl).udp(sport, dport);
    let mut buf = ArrayVec::<u8, MAX_PACKET_LEN>::new();
    match builder.write(&mut buf, payload) {
        Ok(()) => Some(buf.to_vec()),
        Err(_) => None,
    }
}

/// Relies on etherparse's `SlicedPacket::from_ip`: for an IPv4 header
/// without options, not fragmenting, with protocol UDP, the UDP source port
/// is read from the first two bytes after it and the payload is everything
/// after the eight-byte UDP header.
#[verifier::external_body]
fn slice_udp(f: &[u8]) -> (r: Result<(u16, Vec<u8>), FrameFault>)
    ensures
        match r {
            Ok((port, payload)) => ip_udp_slice(f@) == Some(Some((port, payload@))),
            Err(FrameFault::Malformed) => ip_udp_slice(f@) == None::<Option<(u16, Seq<u8>)>>,
            Err(FrameFault::NotUdp) => ip_udp_slice(f@) == Some(None::<(u16, Seq<u8>)>),
        },
        is_plain_udp_frame(f@) ==> r is Ok,
        r matches Ok((port, payload)) ==> (is_plain_udp_frame(f@) ==> port == plain_source_port(f@)),
        r matches Ok((port, payload)) ==> (is_plain_udp_frame(f@) ==> payload@ == plain_payload(f@)),
{
    match SlicedPacket::from_ip(f) {
        Ok(SlicedPacket { transport: Some(TransportSlice::Udp(udp)), payload, .. }) => Ok(
            (udp.source_port(), payload.to_vec()),
        ),
        Ok(_) => Err(FrameFault::NotUdp),
        Err(_) => Err(FrameFault::Malformed),
    }
}

/// Frames `payload` as one record sent on channel `ch`.
pub fn encode_frame(ch: UartTxChannel, payload: &[u8]) -> (r: Option<Vec<u8>>)
    requires
        payload@.len() <= MAX_PAYLOAD,
    ensures
        r is Some,
        r matches Some(f) ==> is_frame_of(f@, ch, payload@),
{
    let (src, dst) = match ch {
        UartTxChannel::Ctrl => ([127u8, 0, 0, 1], [127u8, 0, 0, 2]),
        UartTxChannel::Node => ([127u8, 0, 0, 2], [127u8, 0, 0, 1]),
    };
    proof {
        assert(src@ =~= spec_source_ip(ch));
        assert(dst@ =~= spec_dest_ip(ch));
    }
    build_udp_frame(src, dst, FRAME_TTL, ch.port(), ch.peer_port(), payload)
}

/// What reading a record gives, from what slicing its packet gives.
pub open spec fn decode_sliced(
    sliced: Option<Option<(u16, Seq<u8>)>>,
) -> Result<(UartTxChannel, Seq<u8>), DecodeError> {
    match sliced {
        None => Err(DecodeError::Malformed),
        Some(None) => Err(DecodeError::NotUdp),
        Some(Some((port, payload))) => match spec_channel_of_port(port) {
            Some(ch) => Ok((ch, payload)),
            None => Err(DecodeError::UnknownPort(port)),
        },
    }
}

/// What reading a complete plain UDP frame gives.
pub open spec fn spec_decode_plain(f: Seq<u8>) -> Result<(UartTxChannel, Seq<u8>), DecodeError> {
    match spec_channel_of_port(plain_source_port(f) as u16) {
        Some(ch) => Ok((ch, plain_payload(f))),
        None => Err(DecodeError::UnknownPort(plain_source_port(f) as u16)),
    }
}

/// What reading a record of `f`, captured from a packet of `orig_len`
/// bytes, gives. A plain UDP frame is read by its header fields; anything
/// else as the packet slicer reads it.
pub open spec fn spec_decode(f: Seq<u8>, orig_len: int) -> Result<
    (UartTxChannel, Seq<u8>),
    DecodeError,
> {
    if orig_len != f.len() {
        Err(DecodeError::Truncated)
    } else if is_plain_udp_frame(f) {
        spec_decode_plain(f)
    } else {
        decode_sliced(ip_udp_slice(f))
    }
}

/// Reads one record: its channel, from the UDP source port, and its bytes.
pub fn decode_frame(f: &[u8], orig_len: usize) -> (r: Result<(UartTxChannel, Vec<u8>), DecodeError>)
    ensures
        match r {
            Ok((ch, d)) => spec_decode(f@, orig_len as int) == Ok::<
                (UartTxChannel, Seq<u8>),
                DecodeError,
            >((ch, d@)),
            Err(e) => spec_decode(f@, orig_len as int) == Err::<
                (UartTxChannel, Seq<u8>),
                DecodeError,
            >(e),
        },
{
    if orig_len != f.len() {
        return Err(DecodeError::Truncated);
    }
    match slice_udp(f) {
        Err(FrameFault::Malformed) => Err(DecodeError::Malformed),
        Err(FrameFault::NotUdp) => Err(DecodeError::NotUdp),
        Ok((port, payload)) => match channel_of_port(port) {
            Some(ch) => Ok((ch, payload)),
            None => Err(DecodeError::UnknownPort(port)),
        },
    }
}

/// A frame written for channel `ch` reads back as `payload` on `ch`.
pub proof fn lemma_frame_round_trip(f: Seq<u8>, ch: UartTxChannel, payload: Seq<u8>)
    requires
        is_frame_of(f, ch, payload),
    ensures
        is_plain_udp_frame(f),
        spec_decode_plain(f) == Ok::<(UartTxChannel, Seq<u8>), DecodeError>((ch, payload)),
{
    crate::channel::lemma_port_identifies_channel(ch);
    assert(plain_payload(f) == payload);
}

} // verus!
