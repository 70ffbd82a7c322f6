use usertcp::codec::{encode_datagram, IpFields, TcpFields};
use usertcp::frame::{parse_frame, Segment};
use usertcp::seq::is_between_wrapped;
use usertcp::tcp::{is_acceptable, Connection, RecvSequenceSpace, State, TcpError};

const PEER: [u8; 4] = [192, 168, 0, 2];
const LOCAL: [u8; 4] = [192, 168, 0, 1];

fn peer_ip() -> IpFields {
    IpFields { source: PEER, destination: LOCAL, time_to_live: 64 }
}

fn segment(seq: u32, ack: u32, syn: bool, ack_flag: bool, fin: bool, window: u16) -> TcpFields {
    TcpFields {
        source_port: 40000,
        destination_port: 80,
        sequence_number: seq,
        acknowledgment_number: ack,
        window_size: window,
        syn,
        ack: ack_flag,
        fin,
        rst: false,
    }
}

fn be32_at(d: &[u8], i: usize) -> u32 {
    u32::from_be_bytes([d[i], d[i + 1], d[i + 2], d[i + 3]])
}

fn recv(nxt: u32, wnd: u16) -> RecvSequenceSpace {
    RecvSequenceSpace { nxt, wnd, up: false, irs: 0 }
}

// TCP sequence number, acknowledgment number and flag byte of a datagram
fn tcp_of(d: &[u8]) -> (u32, u32, u8) {
    (be32_at(d, 24), be32_at(d, 28), d[33])
}

fn open_connection(out: &mut Vec<Vec<u8>>) -> Connection {
    let syn = segment(500, 0, true, false, false, 2000);
    Connection::accept(out, &peer_ip(), &syn, &[], 0).expect("a SYN opens a connection")
}

#[test]
fn start_is_never_between() {
    assert!(!is_between_wrapped(7, 7, 100));
    assert!(!is_between_wrapped(7, 7, 7));
    assert!(!is_between_wrapped(u32::MAX, u32::MAX, 0));
}

#[test]
fn ordered_without_wrap() {
    assert!(is_between_wrapped(1, 5, 10));
    assert!(!is_between_wrapped(1, 10, 5));
    assert!(is_between_wrapped(0, 1, u32::MAX));
    assert!(!is_between_wrapped(0, u32::MAX, 1));
}

#[test]
fn between_across_wraparound() {
    assert!(is_between_wrapped(0xFFFF_FFF0, 0x0000_0005, 0x0000_0010));
    assert!(!is_between_wrapped(0xFFFF_FFF0, 0x0000_0020, 0x0000_0010));
    assert!(!is_between_wrapped(10, 5, 20));
    assert!(!is_between_wrapped(10, 20, 10));
}

#[test]
fn zero_window_empty_segment() {
    let r = recv(1000, 0);
    assert!(is_acceptable(&r, 1000, 0));
    assert!(!is_acceptable(&r, 1001, 0));
    assert!(!is_acceptable(&r, 999, 0));
}

#[test]
fn zero_window_rejects_data() {
    let r = recv(1000, 0);
    assert!(!is_acceptable(&r, 1000, 1));
    assert!(!is_acceptable(&r, 999, 5));
    assert!(!is_acceptable(&r, 0, 100));
}

#[test]
fn open_window_acceptance() {
    let r = recv(1000, 100);
    assert!(is_acceptable(&r, 1000, 0));
    assert!(is_acceptable(&r, 1099, 0));
    assert!(!is_acceptable(&r, 1100, 0));
    // starts before the window, ends inside it
    assert!(is_acceptable(&r, 990, 20));
    assert!(!is_acceptable(&r, 990, 10));
    // window across the wraparound
    let w = recv(u32::MAX - 10, 100);
    assert!(is_acceptable(&w, 5, 1));
}

#[test]
fn syn_opens_connection() {
    let mut out = Vec::new();
    let c = open_connection(&mut out);
    assert_eq!(c.state, State::SynRcvd);
    assert_eq!(c.recv.irs, 500);
    assert_eq!(c.recv.nxt, 501);
    assert_eq!(c.recv.wnd, 2000);
    assert_eq!(c.send.iss, 0);
    assert_eq!(c.send.una, 0);
    assert_eq!(c.send.nxt, 1);
    assert_eq!(out.len(), 1);
    let d = &out[0];
    assert_eq!(d.len(), 40);
    assert_eq!(tcp_of(d), (0, 501, 0x12));
    assert_eq!(&d[12..16], &LOCAL);
    assert_eq!(&d[16..20], &PEER);
    assert_eq!(u16::from_be_bytes([d[20], d[21]]), 80);
    assert_eq!(u16::from_be_bytes([d[22], d[23]]), 40000);
}

#[test]
fn non_syn_opens_nothing() {
    let mut out = Vec::new();
    let ack = segment(500, 0, false, true, false, 2000);
    assert!(Connection::accept(&mut out, &peer_ip(), &ack, &[], 0).is_none());
    assert!(out.is_empty());
}

#[test]
fn established_ack_sends_fin() {
    let mut out = Vec::new();
    let mut c = open_connection(&mut out);
    c.state = State::Estab;
    let ack = segment(501, 1, false, true, false, 2000);
    assert_eq!(c.on_packet(&mut out, &peer_ip(), &ack, &[]), Ok(()));
    assert_eq!(c.state, State::FinWait1);
    assert_eq!(c.send.una, 1);
    assert_eq!(c.send.nxt, 2);
    assert_eq!(out.len(), 2);
    assert_eq!(tcp_of(&out[1]), (1, 501, 0x11));

    let fin_ack = segment(501, 2, false, true, false, 2000);
    assert_eq!(c.on_packet(&mut out, &peer_ip(), &fin_ack, &[]), Ok(()));
    assert_eq!(c.state, State::FinWait2);
    assert_eq!(out.len(), 2);
}

#[test]
fn handshake_then_close() {
    let mut out = Vec::new();
    let mut c = open_connection(&mut out);
    // the ACK of the SYN completes the handshake, and closing starts at once
    let ack = segment(501, 1, false, true, false, 2000);
    assert_eq!(c.on_packet(&mut out, &peer_ip(), &ack, &[]), Ok(()));
    assert_eq!(c.state, State::FinWait1);
    assert_eq!(tcp_of(&out[1]), (1, 501, 0x11));
}

fn connection_in_fin_wait2(out: &mut Vec<Vec<u8>>) -> Connection {
    let mut c = open_connection(out);
    let ack = segment(501, 1, false, true, false, 2000);
    c.on_packet(out, &peer_ip(), &ack, &[]).unwrap();
    let fin_ack = segment(501, 2, false, true, false, 2000);
    c.on_packet(out, &peer_ip(), &fin_ack, &[]).unwrap();
    assert_eq!(c.state, State::FinWait2);
    c
}

#[test]
fn peer_fin_in_fin_wait2() {
    let mut out = Vec::new();
    let mut c = connection_in_fin_wait2(&mut out);
    let sent = out.len();
    let fin = segment(501, 2, false, true, true, 2000);
    assert_eq!(c.on_packet(&mut out, &peer_ip(), &fin, &[]), Ok(()));
    assert_eq!(c.state, State::TimeWait);
    assert_eq!(out.len(), sent + 1);
    assert_eq!(tcp_of(&out[sent]), (2, 502, 0x10));
    assert_eq!(c.recv.nxt, 502);

    // nothing moves the connection out of TIME-WAIT
    let ack = segment(502, 2, false, true, false, 2000);
    assert_eq!(c.on_packet(&mut out, &peer_ip(), &ack, &[]), Ok(()));
    assert_eq!(c.state, State::TimeWait);
}

#[test]
fn redelivered_segment_changes_nothing() {
    let mut out = Vec::new();
    let mut c = connection_in_fin_wait2(&mut out);
    let before = (c.recv.nxt, c.send.una, c.send.nxt);
    let sent = out.len();
    let old = segment(400, 2, false, true, false, 2000);
    assert_eq!(c.on_packet(&mut out, &peer_ip(), &old, &[1, 2, 3, 4, 5]), Ok(()));
    assert_eq!(c.state, State::FinWait2);
    assert_eq!((c.recv.nxt, c.send.una, c.send.nxt), before);
    // an unacceptable segment is answered by an empty ACK
    assert_eq!(out.len(), sent + 1);
    assert_eq!(tcp_of(&out[sent]), (2, 501, 0x10));
}

#[test]
fn fin_outside_fin_wait2_is_a_violation() {
    let mut out = Vec::new();
    let mut c = open_connection(&mut out);
    // acknowledges nothing we sent, so the connection stays in SYN-RECEIVED
    let fin = segment(501, 7, false, true, true, 2000);
    assert_eq!(c.on_packet(&mut out, &peer_ip(), &fin, &[]), Err(TcpError::ProtocolViolation));
    assert_eq!(c.state, State::SynRcvd);
}

#[test]
fn data_after_handshake_is_a_violation() {
    let mut out = Vec::new();
    let mut c = open_connection(&mut out);
    let ack = segment(501, 1, false, true, false, 2000);
    assert_eq!(c.on_packet(&mut out, &peer_ip(), &ack, &[9, 9]), Err(TcpError::ProtocolViolation));
    assert_eq!(c.recv.nxt, 503);
    assert_eq!(c.send.una, 1);
}

#[test]
fn closed_ignores_everything() {
    let mut out = Vec::new();
    let mut c = open_connection(&mut out);
    c.state = State::Closed;
    out.clear();
    let fin = segment(501, 1, false, true, true, 2000);
    assert_eq!(c.on_packet(&mut out, &peer_ip(), &fin, &[]), Ok(()));
    assert_eq!(c.state, State::Closed);
    assert_eq!(c.recv.nxt, 501);
    assert!(out.is_empty());
}

#[test]
fn write_truncates_to_one_datagram() {
    let mut out = Vec::new();
    let mut c = open_connection(&mut out);
    let payload = vec![7u8; 2000];
    assert_eq!(c.write(&mut out, &payload), Ok(1460));
    assert_eq!(c.send.nxt, 1 + 1460);
    let d = out.last().unwrap();
    assert_eq!(d.len(), 1500);
    assert_eq!(u16::from_be_bytes([d[2], d[3]]), 1500);
    assert_eq!(tcp_of(d), (1, 501, 0x10));
    assert!(d[40..].iter().all(|b| *b == 7));
}

#[test]
fn write_with_fin_takes_one_sequence_number() {
    let mut out = Vec::new();
    let mut c = open_connection(&mut out);
    c.tcp.fin = true;
    assert_eq!(c.write(&mut out, &[]), Ok(0));
    assert_eq!(c.send.nxt, 2);
    assert!(!c.tcp.fin);
    assert_eq!(tcp_of(out.last().unwrap()), (1, 501, 0x11));
}

#[test]
fn encoded_datagram_is_checksummed() {
    let ip = IpFields { source: LOCAL, destination: PEER, time_to_live: 64 };
    let t = segment(0x0102_0304, 0x0A0B_0C0D, true, true, false, 1024);
    let d = encode_datagram(&ip, &t, &[1, 2, 3]).unwrap();
    assert_eq!(d.len(), 43);
    assert_eq!(d[0], 0x45);
    assert_eq!(d[9], 6);
    assert_eq!(be32_at(&d, 24), 0x0102_0304);
    assert_eq!(be32_at(&d, 28), 0x0A0B_0C0D);
    assert_eq!(&d[40..], &[1, 2, 3]);
    // the TCP checksum over pseudo-header, header and data folds to all ones
    let mut sum: u32 = 0;
    let mut add = |hi: u8, lo: u8| sum += u32::from(u16::from_be_bytes([hi, lo]));
    for i in 0..4 {
        add(d[12 + 2 * (i % 2) + 4 * (i / 2)], d[13 + 2 * (i % 2) + 4 * (i / 2)]);
    }
    add(0, 6);
    add(0, 23);
    let seg = &d[20..];
    for i in (0..seg.len()).step_by(2) {
        add(seg[i], if i + 1 < seg.len() { seg[i + 1] } else { 0 });
    }
    while sum > 0xFFFF {
        sum = (sum & 0xFFFF) + (sum >> 16);
    }
    assert_eq!(sum, 0xFFFF);
    // and the IPv4 header checksum too
    let mut h: u32 = 0;
    for i in (0..20).step_by(2) {
        h += u32::from(u16::from_be_bytes([d[i], d[i + 1]]));
    }
    while h > 0xFFFF {
        h = (h & 0xFFFF) + (h >> 16);
    }
    assert_eq!(h, 0xFFFF);
}

#[test]
fn oversized_segment_is_not_encoded() {
    let ip = IpFields { source: LOCAL, destination: PEER, time_to_live: 64 };
    let t = segment(1, 1, false, true, false, 1024);
    assert!(encode_datagram(&ip, &t, &vec![0u8; 65496]).is_none());
    assert!(encode_datagram(&ip, &t, &vec![0u8; 65495]).is_some());
}

fn frame(ethertype: u16, protocol: u8, tcp_flags: u8, data: &[u8]) -> Vec<u8> {
    let mut f = vec![0, 0];
    f.extend_from_slice(&ethertype.to_be_bytes());
    let total = (40 + data.len()) as u16;
    f.extend_from_slice(&[0x45, 0]);
    f.extend_from_slice(&total.to_be_bytes());
    f.extend_from_slice(&[0, 0, 0x40, 0, 64, protocol, 0, 0]);
    f.extend_from_slice(&PEER);
    f.extend_from_slice(&LOCAL);
    f.extend_from_slice(&40000u16.to_be_bytes());
    f.extend_from_slice(&80u16.to_be_bytes());
    f.extend_from_slice(&500u32.to_be_bytes());
    f.extend_from_slice(&77u32.to_be_bytes());
    f.extend_from_slice(&[0x50, tcp_flags]);
    f.extend_from_slice(&2000u16.to_be_bytes());
    f.extend_from_slice(&[0, 0, 0, 0]);
    f.extend_from_slice(data);
    f
}

#[test]
fn parses_tcp_frame() {
    let f = frame(0x0800, 6, 0x13, &[5, 6]);
    let s: Segment = parse_frame(&f).unwrap().unwrap();
    assert_eq!(s.ip.source, PEER);
    assert_eq!(s.ip.destination, LOCAL);
    assert_eq!(s.ip.time_to_live, 64);
    assert_eq!(s.tcp.source_port, 40000);
    assert_eq!(s.tcp.destination_port, 80);
    assert_eq!(s.tcp.sequence_number, 500);
    assert_eq!(s.tcp.acknowledgment_number, 77);
    assert_eq!(s.tcp.window_size, 2000);
    assert!(s.tcp.syn && s.tcp.ack && s.tcp.fin && !s.tcp.rst);
    assert_eq!(s.data_start, 44);
    assert_eq!(&f[s.data_start..], &[5, 6]);
}

#[test]
fn ignores_other_frames() {
    assert!(parse_frame(&frame(0x86DD, 6, 0x02, &[])).unwrap().is_none());
    assert!(parse_frame(&frame(0x0800, 17, 0x02, &[])).unwrap().is_none());
}

#[test]
fn malformed_headers() {
    assert_eq!(parse_frame(&[0, 0, 8]).unwrap_err(), TcpError::MalformedHeader);
    let f = frame(0x0800, 6, 0x02, &[]);
    assert_eq!(parse_frame(&f[..30]).unwrap_err(), TcpError::MalformedHeader);
    assert_eq!(parse_frame(&f[..40]).unwrap_err(), TcpError::MalformedHeader);
    let mut bad_version = f.clone();
    bad_version[4] = 0x65;
    assert_eq!(parse_frame(&bad_version).unwrap_err(), TcpError::MalformedHeader);
    let mut bad_offset = f.clone();
    bad_offset[36] = 0x40;
    assert_eq!(parse_frame(&bad_offset).unwrap_err(), TcpError::MalformedHeader);
}

#[test]
fn state_basics() {
    assert_eq!(State::default(), State::Closed);
    assert!(!State::SynRcvd.is_synchronized());
    assert!(!State::Closed.is_synchronized());
    assert!(State::Estab.is_synchronized());
    assert!(State::TimeWait.is_synchronized());
}

#[test]
fn reset_is_sent_from_current_position() {
    let mut out = Vec::new();
    let mut c = open_connection(&mut out);
    c.send_rst(&mut out);
    assert_eq!(out.len(), 2);
    assert_eq!(tcp_of(&out[1]), (1, 501, 0x14));
    assert!(c.tcp.rst);
    assert_eq!(c.send.nxt, 1);
}
