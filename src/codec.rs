//! The boundary with the IPv4/TCP header codec: plain models of the header
//! fields this engine controls, and the calls that serialise them.
use vstd::prelude::*;

verus! {

/// Length of an IPv4 header without options.
pub const IPV4_HEADER_LEN: usize = 20;

/// Length of a TCP header without options.
pub const TCP_HEADER_LEN: usize = 20;

/// Largest datagram handed to the transport.
pub const MTU: usize = 1500;

/// The IPv4 header fields of outgoing datagrams.
#[derive(Clone, Copy, Debug)]
pub struct IpFields {
    pub source: [u8; 4],
    pub destination: [u8; 4],
    pub time_to_live: u8,
}

/// The TCP header fields of an outgoing segment.
#[derive(Clone, Copy, Debug)]
pub struct TcpFields {
    pub source_port: u16,
    pub destination_port: u16,
    pub sequence_number: u32,
    pub acknowledgment_number: u32,
    pub window_size: u16,
    pub syn: bool,
    pub ack: bool,
    pub fin: bool,
    pub rst: bool,
}

/// Big-endian bytes of a 16-bit value.
pub open spec fn be16(v: u16) -> Seq<u8> {
    seq![(v / 0x100) as u8, (v % 0x100) as u8]
}

/// Big-endian bytes of a 32-bit value.
pub open spec fn be32(v: u32) -> Seq<u8> {
    seq![
        (v / 0x100_0000) as u8,
        ((v / 0x1_0000) % 0x100) as u8,
        ((v / 0x100) % 0x100) as u8,
        (v % 0x100) as u8,
    ]
}

/// The control-bit byte of a TCP header.
pub open spec fn flag_bits(t: TcpFields) -> int {
    (if t.fin { 1int } else { 0 }) + (if t.syn { 2int } else { 0 }) + (if t.rst { 4int } else { 0 })
        + (if t.ack { 16int } else { 0 })
}

/// `h` is a 20-byte IPv4 header for a TCP payload of `payload_len` bytes.
pub open spec fn is_ipv4_header(h: Seq<u8>, ip: IpFields, payload_len: int) -> bool {
    &&& h.len() == IPV4_HEADER_LEN
    &&& h[0] == 0x45
    &&& h.subrange(2, 4) == be16((payload_len + IPV4_HEADER_LEN) as u16)
    &&& h[8] == ip.time_to_live
    &&& h[9] == 6
    &&& h.subrange(12, 16) == ip.source@
    &&& h.subrange(16, 20) == ip.destination@
}

/// `h` is a 20-byte TCP header carrying `t` and `checksum`.
pub open spec fn is_tcp_header(h: Seq<u8>, t: TcpFields, checksum: u16) -> bool {
    &&& h.len() == TCP_HEADER_LEN
    &&& h.subrange(0, 2) == be16(t.source_port)
    &&& h.subrange(2, 4) == be16(t.destination_port)
    &&& h.subrange(4, 8) == be32(t.sequence_number)
    &&& h.subrange(8, 12) == be32(t.acknowledgment_number)
    &&& h[12] == 0x50
    &&& h[13] == flag_bits(t)
    &&& h.subrange(14, 16) == be16(t.window_size)
    &&& h.subrange(16, 18) == be16(checksum)
}

/// `d` is an IPv4 datagram from `ip` holding the TCP segment `t` with `payload`.
pub open spec fn is_datagram(d: Seq<u8>, ip: IpFields, t: TcpFields, payload: Seq<u8>) -> bool {
    &&& d.len() == IPV4_HEADER_LEN + TCP_HEADER_LEN + payload.len()
    &&& is_ipv4_header(d.subrange(0, 20), ip, TCP_HEADER_LEN + payload.len())
    &&& exists|c: u16| is_tcp_header(#[trigger] d.subrange(20, 40), t, c)
    &&& d.subrange(40, d.len() as int) == payload
}

/// Relies on etherparse's `TcpHeader::calc_checksum_ipv4_raw` (with the header
/// built by `TcpHeader::new`): it fails exactly when the TCP length does not
/// fit in 16 bits.
#[verifier::external_body]
fn tcp_checksum(t: &TcpFields, ip: &IpFields, payload: &[u8]) -> (r: Option<u16>)
    ensures
        r.is_some() == (TCP_HEADER_LEN + payload@.len() <= 0xFFFF),
{
    let mut h = etherparse::TcpHeader::new(t.source_port, t.destination_port, t.sequence_number, t.window_size);
    h.acknowledgment_number = t.acknowledgment_number;
    h.syn = t.syn;
    h.ack = t.ack;
    h.fin = t.fin;
    h.rst = t.rst;
    h.calc_checksum_ipv4_raw(ip.source, ip.destination, payload).ok()
}

/// Relies on etherparse's `Ipv4Header::new` and `Ipv4Header::write`: a header
/// without options, protocol TCP, written in full when the payload length is
/// in range and not at all otherwise.
#[verifier::external_body]
fn write_ipv4(ip: &IpFields, payload_len: u16, out: &mut Vec<u8>) -> (r: bool)
    ensures
        r == (payload_len <= 0xFFFF - IPV4_HEADER_LEN),
        r ==> final(out)@.len() == old(out)@.len() + IPV4_HEADER_LEN,
        r ==> final(out)@.subrange(0, old(out)@.len() as int) == old(out)@,
        r ==> is_ipv4_header(
            final(out)@.subrange(old(out)@.len() as int, final(out)@.len() as int),
            *ip,
            payload_len as int,
        ),
        !r ==> final(out)@ == old(out)@,
{
    let h = etherparse::Ipv4Header::new(payload_len, ip.time_to_live, etherparse::IpTrafficClass::Tcp, ip.source, ip.destination);
    h.write(out).is_ok()
}

/// Relies on etherparse's `TcpHeader::new` and `TcpHeader::write`: a header
/// without options, appended to a vector, which cannot fail.
#[verifier::external_body]
fn write_tcp(t: &TcpFields, checksum: u16, out: &mut Vec<u8>)
    ensures
        final(out)@.len() == old(out)@.len() + TCP_HEADER_LEN,
        final(out)@.subrange(0, old(out)@.len() as int) == old(out)@,
        is_tcp_header(
            final(out)@.subrange(old(out)@.len() as int, final(out)@.len() as int),
            *t,
            checksum,
        ),
{
    let mut h = etherparse::TcpHeader::new(t.source_port, t.destination_port, t.sequence_number, t.window_size);
    h.acknowledgment_number = t.acknowledgment_number;
    h.syn = t.syn;
    h.ack = t.ack;
    h.fin = t.fin;
    h.rst = t.rst;
    h.checksum = checksum;
    let _ = h.write(out);
}

/// Serialises one IPv4 datagram holding the TCP segment `t` and `payload`,
/// checksummed over the IPv4 pseudo-header. Fails, writing nothing, when the
/// segment is too long for the length fields.
pub fn encode_datagram(ip: &IpFields, t: &TcpFields, payload: &[u8]) -> (r: Option<Vec<u8>>)
    ensures
        r.is_some() == (IPV4_HEADER_LEN + TCP_HEADER_LEN + payload@.len() <= 0xFFFF),
        r matches Some(d) ==> is_datagram(d@, *ip, *t, payload@),
{
    let checksum = match tcp_checksum(t, ip, payload) {
        Some(c) => c,
        None => return None,
    };
    if payload.len() > 0xFFFF - IPV4_HEADER_LEN - TCP_HEADER_LEN {
        return None;
    }
    let mut out: Vec<u8> = Vec::new();
    let ok = write_ipv4(ip, (TCP_HEADER_LEN + payload.len()) as u16, &mut out);
    assert(ok);
    let ghost ip_part = out@;
    assert(ip_part.subrange(0, 20) =~= ip_part);
    write_tcp(t, checksum, &mut out);
    let ghost headers = out@;
    assert(headers.subrange(0, 20) =~= ip_part);
    assert(is_ipv4_header(headers.subrange(0, 20), *ip, TCP_HEADER_LEN + payload@.len()));
    assert(is_tcp_header(headers.subrange(20, 40), *t, checksum));
    let mut i: usize = 0;
    while i < payload.len()
        invariant
            i <= payload@.len(),
            out@.len() == 40 + i,
            out@.subrange(0, 40) == headers,
            out@.subrange(40, 40 + i as int) == payload@.subrange(0, i as int),
        decreases payload@.len() - i,
    {
        out.push(payload[i]);
        i = i + 1;
        assert(out@.subrange(40, 40 + i as int) =~= payload@.subrange(0, i as int));
    }
    assert(payload@.subrange(0, i as int) =~= payload@);
    assert(out@.subrange(0, 20) =~= headers.subrange(0, 20));
    assert(out@.subrange(20, 40) =~= headers.subrange(20, 40));
    assert(is_tcp_header(out@.subrange(20, 40), *t, checksum));
    Some(out)
}

} // verus!
