//! Demultiplexing of the frames the virtual interface delivers: a 4-byte
//! link-layer prefix, then an IPv4 datagram, of which only TCP is kept.
use vstd::prelude::*;

use crate::codec::{IpFields, TcpFields};
use crate::tcp::TcpError;

verus! {

/// Length of the link-layer prefix of each frame.
pub const FRAME_PREFIX_LEN: usize = 4;

/// EtherType of IPv4, read from the prefix.
pub const ETHERTYPE_IPV4: u16 = 0x0800;

/// IP protocol number of TCP.
pub const PROTOCOL_TCP: u8 = 6;

/// Big-endian 16-bit value at `i`.
pub open spec fn u16_at(b: Seq<u8>, i: int) -> int {
    b[i] * 0x100 + b[i + 1]
}

/// Big-endian 32-bit value at `i`.
pub open spec fn u32_at(b: Seq<u8>, i: int) -> int {
    u16_at(b, i) * 0x1_0000 + u16_at(b, i + 2)
}

/// Header length an IPv4 header starting `b` declares.
pub open spec fn ipv4_header_len(b: Seq<u8>) -> int {
    4 * (b[0] % 16)
}

/// `b` starts with a well-formed IPv4 header.
pub open spec fn ipv4_parses(b: Seq<u8>) -> bool {
    &&& b.len() >= 20
    &&& b[0] / 16 == 4
    &&& b[0] % 16 >= 5
    &&& b.len() >= ipv4_header_len(b)
    &&& u16_at(b, 2) >= ipv4_header_len(b)
}

/// `ip` holds the addresses and time to live of the IPv4 header in `b`.
pub open spec fn reads_ipv4(b: Seq<u8>, ip: IpFields) -> bool {
    &&& ip.source@ == b.subrange(12, 16)
    &&& ip.destination@ == b.subrange(16, 20)
    &&& ip.time_to_live == b[8]
}

/// Header length a TCP header starting `b` declares.
pub open spec fn tcp_header_len(b: Seq<u8>) -> int {
    4 * (b[12] / 16)
}

/// `b` starts with a well-formed TCP header.
pub open spec fn tcp_parses(b: Seq<u8>) -> bool {
    &&& b.len() >= 20
    &&& b[12] / 16 >= 5
    &&& b.len() >= tcp_header_len(b)
}

/// `t` holds the fields of the TCP header in `b`.
pub open spec fn reads_tcp(b: Seq<u8>, t: TcpFields) -> bool {
    &&& t.source_port == u16_at(b, 0)
    &&& t.destination_port == u16_at(b, 2)
    &&& t.sequence_number == u32_at(b, 4)
    &&& t.acknowledgment_number == u32_at(b, 8)
    &&& t.fin == (b[13] % 2 == 1)
    &&& t.syn == ((b[13] / 2) % 2 == 1)
    &&& t.rst == ((b[13] / 4) % 2 == 1)
    &&& t.ack == ((b[13] / 16) % 2 == 1)
    &&& t.window_size == u16_at(b, 14)
}

/// Relies on etherparse's `Ipv4HeaderSlice::from_slice` and its getters: it
/// checks length, version, header length and total length, and reads the
/// fields at their fixed offsets. Returns the fields, the protocol number
/// and the header length.
#[verifier::external_body]
fn parse_ipv4(b: &[u8]) -> (r: Option<(IpFields, u8, usize)>)
    ensures
        r.is_some() == ipv4_parses(b@),
        r matches Some((ip, protocol, len)) ==> reads_ipv4(b@, ip) && protocol == b@[9] && len
            == ipv4_header_len(b@),
{
    let h = etherparse::Ipv4HeaderSlice::from_slice(b).ok()?;
    let (s, d) = (h.source(), h.destination());
    let ip = IpFields {
        source: [s[0], s[1], s[2], s[3]],
        destination: [d[0], d[1], d[2], d[3]],
        time_to_live: h.ttl(),
    };
    Some((ip, h.protocol(), h.slice().len()))
}

/// Relies on etherparse's `TcpHeaderSlice::from_slice` and its getters: it
/// checks length and data offset, and reads the fields at their fixed
/// offsets. Returns the fields and the header length.
#[verifier::external_body]
fn parse_tcp(b: &[u8]) -> (r: Option<(TcpFields, usize)>)
    ensures
        r.is_some() == tcp_parses(b@),
        r matches Some((t, len)) ==> reads_tcp(b@, t) && len == tcp_header_len(b@),
{
    let h = etherparse::TcpHeaderSlice::from_slice(b).ok()?;
    let t = TcpFields {
        source_port: h.source_port(),
        destination_port: h.destination_port(),
        sequence_number: h.sequence_number(),
        acknowledgment_number: h.acknowledgment_number(),
        window_size: h.window_size(),
        syn: h.syn(),
        ack: h.ack(),
        fin: h.fin(),
        rst: h.rst(),
    };
    Some((t, h.slice().len()))
}

/// A TCP segment found in a frame: its IPv4 and TCP header fields, and where
/// its data starts in the frame.
#[derive(Clone, Copy, Debug)]
pub struct Segment {
    pub ip: IpFields,
    pub tcp: TcpFields,
    pub data_start: usize,
}

/// Finds the TCP segment in a frame. Frames that are not IPv4, and datagrams
/// that are not TCP, give `None`; truncated or ill-formed headers give
/// `MalformedHeader`.
pub fn parse_frame(frame: &[u8]) -> (r: Result<Option<Segment>, TcpError>)
    ensures
        frame@.len() < FRAME_PREFIX_LEN ==> r == Err::<Option<Segment>, TcpError>(
            TcpError::MalformedHeader,
        ),
        frame@.len() >= FRAME_PREFIX_LEN ==> {
            let ipb = frame@.subrange(4, frame@.len() as int);
            let tcpb = frame@.subrange(4 + ipv4_header_len(ipb), frame@.len() as int);
            &&& u16_at(frame@, 2) != ETHERTYPE_IPV4 ==> r == Ok::<Option<Segment>, TcpError>(None)
            &&& u16_at(frame@, 2) == ETHERTYPE_IPV4 && !ipv4_parses(ipb) ==> r == Err::<
                Option<Segment>,
                TcpError,
            >(TcpError::MalformedHeader)
            &&& u16_at(frame@, 2) == ETHERTYPE_IPV4 && ipv4_parses(ipb) && ipb[9] != PROTOCOL_TCP
                ==> r == Ok::<Option<Segment>, TcpError>(None)
            &&& u16_at(frame@, 2) == ETHERTYPE_IPV4 && ipv4_parses(ipb) && ipb[9] == PROTOCOL_TCP
                ==> (tcp_parses(tcpb) <==> r is Ok) && (!tcp_parses(tcpb) ==> r == Err::<
                Option<Segment>,
                TcpError,
            >(TcpError::MalformedHeader))
            &&& r matches Ok(Some(s)) ==> reads_ipv4(ipb, s.ip) && reads_tcp(tcpb, s.tcp)
                && s.data_start == 4 + ipv4_header_len(ipb) + tcp_header_len(tcpb)
        },
{
    if frame.len() < FRAME_PREFIX_LEN {
        return Err(TcpError::MalformedHeader);
    }
    let ethertype: u16 = frame[2] as u16 * 0x100 + frame[3] as u16;
    if ethertype != ETHERTYPE_IPV4 {
        return Ok(None);
    }
    let ipb = vstd::slice::slice_subrange(frame, FRAME_PREFIX_LEN, frame.len());
    let (ip, protocol, ip_len) = match parse_ipv4(ipb) {
        Some(p) => p,
        None => return Err(TcpError::MalformedHeader),
    };
    if protocol != PROTOCOL_TCP {
        return Ok(None);
    }
    let tcpb = vstd::slice::slice_subrange(frame, FRAME_PREFIX_LEN + ip_len, frame.len());
    assert(tcpb@ =~= frame@.subrange(4 + ipv4_header_len(ipb@), frame@.len() as int));
    let (tcp, tcp_len) = match parse_tcp(tcpb) {
        Some(p) => p,
        None => return Err(TcpError::MalformedHeader),
    };
    Ok(Some(Segment { ip, tcp, data_start: FRAME_PREFIX_LEN + ip_len + tcp_len }))
}

} // verus!
