//! The transmission control block: sequence spaces, the segment
//! acceptability test, and the connection state machine.
use vstd::prelude::*;

use crate::codec::{
    encode_datagram, is_datagram, IpFields, TcpFields, IPV4_HEADER_LEN, MTU, TCP_HEADER_LEN,
};
use crate::seq::{is_between_wrapped, seq_between};

verus! {

/// Send window advertised by a new connection.
pub const INITIAL_WINDOW: u16 = 1024;

/// Time to live of outgoing datagrams.
pub const TIME_TO_LIVE: u8 = 64;

/// Largest payload that fits in one datagram beside both headers.
pub const MAX_PAYLOAD: usize = MTU - IPV4_HEADER_LEN - TCP_HEADER_LEN;

/// Connection states (RFC 793); listening is left to whoever creates
/// connections.
#[derive(Clone, Copy, Debug, PartialEq, Eq, Structural)]
pub enum State {
    Closed,
    SynRcvd,
    Estab,
    FinWait1,
    FinWait2,
    TimeWait,
}

impl State {
    /// The states reached once both sides' sequence numbers are known.
    pub open spec fn synchronized(self) -> bool {
        self is Estab || self is FinWait1 || self is FinWait2 || self is TimeWait
    }

    pub fn is_synchronized(&self) -> (r: bool)
        ensures
            r == self.synchronized(),
    {
        match *self {
            State::SynRcvd => false,
            State::Estab | State::FinWait1 | State::FinWait2 | State::TimeWait => true,
            State::Closed => false,
        }
    }
}

impl Default for State {
    fn default() -> (r: Self)
        ensures
            r == State::Closed,
    {
        State::Closed
    }
}

/// Errors that processing a segment or building one can end in.
#[derive(Clone, Copy, Debug, PartialEq, Eq, Structural)]
pub enum TcpError {
    /// A truncated or ill-formed IPv4 or TCP header.
    MalformedHeader,
    /// An event for which no transition is defined in the current state.
    ProtocolViolation,
    /// The segment is too long for its checksum to be computed.
    ChecksumComputationFailure,
}

/// Send Sequence Space (RFC 793 section 3.2).
#[derive(Clone, Copy, Debug)]
pub struct SendSequenceSpace {
    /// oldest unacknowledged sequence number
    pub una: u32,
    /// next sequence number to send
    pub nxt: u32,
    /// window the peer advertised
    pub wnd: u16,
    /// urgent pointer
    pub up: bool,
    /// segment sequence number of the last window update
    pub wl1: u32,
    /// segment acknowledgment number of the last window update
    pub wl2: u32,
    /// initial send sequence number
    pub iss: u32,
}

/// Receive Sequence Space (RFC 793 section 3.2).
#[derive(Clone, Copy, Debug)]
pub struct RecvSequenceSpace {
    /// next sequence number expected
    pub nxt: u32,
    /// window advertised to the peer
    pub wnd: u16,
    /// urgent pointer
    pub up: bool,
    /// initial receive sequence number
    pub irs: u32,
}

/// One connection: its state, both sequence spaces, and the header
/// template of the segments it sends.
#[derive(Clone, Copy, Debug)]
pub struct Connection {
    pub state: State,
    pub send: SendSequenceSpace,
    pub recv: RecvSequenceSpace,
    pub ip: IpFields,
    pub tcp: TcpFields,
}

/// Sequence space taken by a segment: its data, and one each for SYN and FIN.
pub open spec fn seg_len(data_len: nat, t: TcpFields) -> int {
    data_len + (if t.fin { 1int } else { 0 }) + (if t.syn { 1int } else { 0 })
}

/// RFC 793's test of whether a segment overlaps the receive window.
pub open spec fn acceptable(recv: RecvSequenceSpace, seqn: u32, slen: u32) -> bool {
    let before = recv.nxt.wrapping_sub(1);
    let wend = recv.nxt.wrapping_add(recv.wnd as u32);
    if slen == 0 {
        if recv.wnd == 0 {
            seqn == recv.nxt
        } else {
            seq_between(before, seqn, wend)
        }
    } else {
        recv.wnd != 0 && (seq_between(before, seqn, wend) || seq_between(
            before,
            seqn.wrapping_add((slen - 1) as u32),
            wend,
        ))
    }
}

/// Whether a segment of `slen` sequence numbers from `seqn` overlaps the
/// receive window.
pub fn is_acceptable(recv: &RecvSequenceSpace, seqn: u32, slen: u32) -> (r: bool)
    ensures
        r == acceptable(*recv, seqn, slen),
{
    let before = recv.nxt.wrapping_sub(1);
    let wend = recv.nxt.wrapping_add(recv.wnd as u32);
    if slen == 0 {
        if recv.wnd == 0 {
            seqn == recv.nxt
        } else {
            is_between_wrapped(before, seqn, wend)
        }
    } else if recv.wnd == 0 {
        false
    } else {
        is_between_wrapped(before, seqn, wend) || is_between_wrapped(
            before,
            seqn.wrapping_add(slen - 1),
            wend,
        )
    }
}

/// Payload bytes that fit in one datagram out of `len`.
pub open spec fn sent_len(len: nat) -> nat {
    if len <= MAX_PAYLOAD {
        len
    } else {
        MAX_PAYLOAD as nat
    }
}

/// Header of the next segment `c` sends: its template, stamped with the
/// current send and receive positions.
pub open spec fn emitted(c: Connection) -> TcpFields {
    TcpFields { sequence_number: c.send.nxt, acknowledgment_number: c.recv.nxt, ..c.tcp }
}

/// `c` after sending `n` payload bytes: SYN and FIN each take one sequence
/// number and are cleared once sent.
pub open spec fn written(c: Connection, n: nat) -> Connection {
    Connection {
        send: SendSequenceSpace {
            nxt: c.send.nxt.wrapping_add(n as u32).wrapping_add(
                if c.tcp.syn { 1u32 } else { 0u32 },
            ).wrapping_add(if c.tcp.fin { 1u32 } else { 0u32 }),
            ..c.send
        },
        tcp: TcpFields { syn: false, fin: false, ..emitted(c) },
        ..c
    }
}

/// What processing a segment yields: the connection after it, the headers
/// of the segments sent in order, and the result.
pub type Step = (Connection, Seq<TcpFields>, Result<(), TcpError>);

/// Last stage of processing: FIN-WAIT-1 whose FIN is acknowledged moves to
/// FIN-WAIT-2, and a FIN from the peer is answered there and only there.
pub open spec fn closing_step(c: Connection, t: TcpFields) -> Step {
    let c = if c.state == State::FinWait1 && c.send.una == c.send.iss.wrapping_add(2) {
        Connection { state: State::FinWait2, ..c }
    } else {
        c
    };
    if !t.fin {
        (c, seq![], Ok(()))
    } else if c.state == State::FinWait2 {
        (Connection { state: State::TimeWait, ..written(c, 0) }, seq![emitted(c)], Ok(()))
    } else {
        (c, seq![], Err(TcpError::ProtocolViolation))
    }
}

/// Processing of an acknowledgment carried by an acceptable segment.
pub open spec fn ack_step(c: Connection, t: TcpFields, data_len: nat) -> Step {
    let ackn = t.acknowledgment_number;
    let c = if c.state == State::SynRcvd && seq_between(
        c.send.una.wrapping_sub(1),
        ackn,
        c.send.nxt.wrapping_add(1),
    ) {
        Connection { state: State::Estab, ..c }
    } else {
        c
    };
    if c.state == State::Estab || c.state == State::FinWait1 || c.state == State::FinWait2 {
        if !seq_between(c.send.una, ackn, c.send.nxt.wrapping_add(1)) {
            closing_step(c, t)
        } else {
            let c = Connection { send: SendSequenceSpace { una: ackn, ..c.send }, ..c };
            if data_len > 0 {
                (c, seq![], Err(TcpError::ProtocolViolation))
            } else if c.state == State::Estab {
                let f = Connection { tcp: TcpFields { fin: true, ..c.tcp }, ..c };
                let rest = closing_step(Connection { state: State::FinWait1, ..written(f, 0) }, t);
                (rest.0, seq![emitted(f)] + rest.1, rest.2)
            } else {
                closing_step(c, t)
            }
        }
    } else {
        closing_step(c, t)
    }
}

/// Processing of one incoming segment carrying `data_len` bytes of data.
pub open spec fn packet_step(c: Connection, t: TcpFields, data_len: nat) -> Step {
    if c.state == State::Closed {
        (c, seq![], Ok(()))
    } else if !acceptable(c.recv, t.sequence_number, seg_len(data_len, t) as u32) {
        (written(c, 0), seq![emitted(c)], Ok(()))
    } else {
        let c = Connection {
            recv: RecvSequenceSpace {
                nxt: t.sequence_number.wrapping_add(seg_len(data_len, t) as u32),
                ..c.recv
            },
            ..c
        };
        if !t.ack {
            (c, seq![], Ok(()))
        } else {
            ack_step(c, t, data_len)
        }
    }
}

/// `out` grew from `before` by one datagram from `ip` per header of `sent`,
/// each with no payload.
pub open spec fn sent_all(out: Seq<Vec<u8>>, before: Seq<Vec<u8>>, ip: IpFields, sent: Seq<TcpFields>) -> bool {
    &&& out.len() == before.len() + sent.len()
    &&& out.subrange(0, before.len() as int) == before
    &&& forall|i: int| 0 <= i < sent.len() ==> is_datagram(#[trigger] out[before.len() + i]@, ip, sent[i], seq![])
}

/// The connection that a peer's SYN `tcph`, sent to `iph.destination`,
/// creates with initial send sequence number `iss`, once its SYN+ACK is sent.
pub open spec fn accepted(iph: IpFields, tcph: TcpFields, iss: u32) -> Connection {
    Connection {
        state: State::SynRcvd,
        send: SendSequenceSpace {
            iss,
            una: iss,
            nxt: iss.wrapping_add(1),
            wnd: INITIAL_WINDOW,
            up: false,
            wl1: 0,
            wl2: 0,
        },
        recv: RecvSequenceSpace {
            irs: tcph.sequence_number,
            nxt: tcph.sequence_number.wrapping_add(1),
            wnd: tcph.window_size,
            up: false,
        },
        ip: IpFields { source: iph.destination, destination: iph.source, time_to_live: TIME_TO_LIVE },
        tcp: TcpFields {
            source_port: tcph.destination_port,
            destination_port: tcph.source_port,
            sequence_number: iss,
            acknowledgment_number: tcph.sequence_number.wrapping_add(1),
            window_size: INITIAL_WINDOW,
            syn: false,
            ack: true,
            fin: false,
            rst: false,
        },
    }
}

/// The SYN+ACK that opens connection `c`: its template with SYN set, at the
/// initial send sequence number.
pub open spec fn syn_ack(c: Connection) -> TcpFields {
    TcpFields { syn: true, sequence_number: c.send.iss, ..c.tcp }
}

/// Nothing sent leaves `out` as it was.
proof fn lemma_sent_none(out: Seq<Vec<u8>>, ip: IpFields)
    ensures
        sent_all(out, out, ip, seq![]),
{
    assert(out.subrange(0, out.len() as int) =~= out);
}

/// Two stages of sending compose.
proof fn lemma_sent_concat(
    a: Seq<Vec<u8>>,
    b: Seq<Vec<u8>>,
    c: Seq<Vec<u8>>,
    ip: IpFields,
    s1: Seq<TcpFields>,
    s2: Seq<TcpFields>,
)
    requires
        sent_all(b, a, ip, s1),
        sent_all(c, b, ip, s2),
    ensures
        sent_all(c, a, ip, s1 + s2),
{
    assert(c.subrange(0, a.len() as int) =~= b.subrange(0, a.len() as int)) by {
        assert forall|i: int| 0 <= i < a.len() implies c[i] == b[i] by {
            assert(c.subrange(0, b.len() as int)[i] == c[i]);
        }
    }
    assert forall|i: int| 0 <= i < (s1 + s2).len() implies is_datagram(
        #[trigger] c[a.len() + i]@,
        ip,
        (s1 + s2)[i],
        seq![],
    ) by {
        if i < s1.len() {
            assert(c.subrange(0, b.len() as int)[a.len() + i] == c[a.len() + i]);
            assert(is_datagram(b[a.len() + i]@, ip, s1[i], seq![]));
        } else {
            let j = i - s1.len();
            assert(is_datagram(c[b.len() + j]@, ip, s2[j], seq![]));
        }
    }
}

/// `c` with RST set in its header template.
pub open spec fn with_rst(c: Connection) -> Connection {
    Connection { tcp: TcpFields { rst: true, ..c.tcp }, ..c }
}

impl Connection {
    /// Synthesises a connection from a peer's SYN, with initial send
    /// sequence number `iss`, and sends its SYN+ACK. Any segment without SYN
    /// creates nothing. Data carried by the SYN is not taken in.
    pub fn accept(
        out: &mut Vec<Vec<u8>>,
        iph: &IpFields,
        tcph: &TcpFields,
        data: &[u8],
        iss: u32,
    ) -> (r: Option<Connection>)
        ensures
            !tcph.syn ==> r is None && final(out)@ == old(out)@,
            tcph.syn ==> r == Some(accepted(*iph, *tcph, iss)),
            tcph.syn ==> sent_all(
                final(out)@,
                old(out)@,
                accepted(*iph, *tcph, iss).ip,
                seq![syn_ack(accepted(*iph, *tcph, iss))],
            ),
    {
        if !tcph.syn {
            return None;
        }
        let mut c = Connection {
            state: State::SynRcvd,
            send: SendSequenceSpace { iss, una: iss, nxt: iss, wnd: INITIAL_WINDOW, up: false, wl1: 0, wl2: 0 },
            recv: RecvSequenceSpace {
                irs: tcph.sequence_number,
                nxt: tcph.sequence_number.wrapping_add(1),
                wnd: tcph.window_size,
                up: false,
            },
            ip: IpFields { source: iph.destination, destination: iph.source, time_to_live: TIME_TO_LIVE },
            tcp: TcpFields {
                source_port: tcph.destination_port,
                destination_port: tcph.source_port,
                sequence_number: iss,
                acknowledgment_number: 0,
                window_size: INITIAL_WINDOW,
                syn: true,
                ack: true,
                fin: false,
                rst: false,
            },
        };
        c.send_control(out);
        Some(c)
    }

    /// Sends one segment built from the header template, stamped with
    /// `send.nxt` and `recv.nxt`, with as much of `payload` as fits in one
    /// datagram. The sequence space advances by the payload sent and by one
    /// for each of SYN and FIN, which are cleared. Returns the number of
    /// payload bytes sent; what fits in one datagram always has a checksum,
    /// so this never fails.
    pub fn write(&mut self, out: &mut Vec<Vec<u8>>, payload: &[u8]) -> (r: Result<usize, TcpError>)
        ensures
            r == Ok::<usize, TcpError>(sent_len(payload@.len()) as usize),
            *final(self) == written(*old(self), sent_len(payload@.len())),
            final(out)@.len() == old(out)@.len() + 1,
            final(out)@.drop_last() == old(out)@,
            is_datagram(
                final(out)@.last()@,
                old(self).ip,
                emitted(*old(self)),
                payload@.subrange(0, sent_len(payload@.len()) as int),
            ),
    {
        let n: usize = if payload.len() <= MAX_PAYLOAD {
            payload.len()
        } else {
            MAX_PAYLOAD
        };
        let body = vstd::slice::slice_subrange(payload, 0, n);
        let header = TcpFields {
            sequence_number: self.send.nxt,
            acknowledgment_number: self.recv.nxt,
            ..self.tcp
        };
        let d = match encode_datagram(&self.ip, &header, body) {
            Some(d) => d,
            None => return Err(TcpError::ChecksumComputationFailure),
        };
        self.tcp = header;
        self.send.nxt = self.send.nxt.wrapping_add(n as u32);
        if self.tcp.syn {
            self.send.nxt = self.send.nxt.wrapping_add(1);
            self.tcp.syn = false;
        } else {
            self.send.nxt = self.send.nxt.wrapping_add(0);
        }
        if self.tcp.fin {
            self.send.nxt = self.send.nxt.wrapping_add(1);
            self.tcp.fin = false;
        } else {
            self.send.nxt = self.send.nxt.wrapping_add(0);
        }
        let ghost before = out@;
        out.push(d);
        assert(out@.drop_last() =~= before);
        Ok(n)
    }

    /// Sends one segment with no payload from the header template.
    fn send_control(&mut self, out: &mut Vec<Vec<u8>>)
        ensures
            *final(self) == written(*old(self), 0),
            sent_all(final(out)@, old(out)@, old(self).ip, seq![emitted(*old(self))]),
    {
        let none: Vec<u8> = Vec::new();
        let _ = self.write(out, none.as_slice());
        assert(none@.subrange(0, 0) =~= seq![]);
        assert(out@.subrange(0, old(out)@.len() as int) =~= out@.drop_last());
        assert(out@[old(out)@.len() + 0int] == out@.last());
    }

    /// Sends a reset: sets RST in the header template and sends one segment
    /// with no payload.
    pub fn send_rst(&mut self, out: &mut Vec<Vec<u8>>)
        ensures
            *final(self) == written(with_rst(*old(self)), 0),
            sent_all(final(out)@, old(out)@, old(self).ip, seq![emitted(with_rst(*old(self)))]),
    {
        self.tcp.rst = true;
        self.send_control(out);
    }

    /// Last stage of processing a segment: notices an acknowledged FIN, and
    /// answers the peer's FIN.
    fn on_closing(&mut self, out: &mut Vec<Vec<u8>>, tcph: &TcpFields) -> (r: Result<(), TcpError>)
        ensures
            *final(self) == closing_step(*old(self), *tcph).0,
            sent_all(final(out)@, old(out)@, old(self).ip, closing_step(*old(self), *tcph).1),
            r == closing_step(*old(self), *tcph).2,
    {
        proof {
            lemma_sent_none(out@, self.ip);
        }
        if self.state == State::FinWait1 && self.send.una == self.send.iss.wrapping_add(2) {
            // our FIN has been acknowledged
            self.state = State::FinWait2;
        }
        if tcph.fin {
            if self.state == State::FinWait2 {
                self.send_control(out);
                self.state = State::TimeWait;
            } else {
                return Err(TcpError::ProtocolViolation);
            }
        }
        Ok(())
    }

    /// Takes in the acknowledgment of an acceptable segment carrying
    /// `data_len` bytes of data.
    fn on_ack(&mut self, out: &mut Vec<Vec<u8>>, tcph: &TcpFields, data_len: usize) -> (r: Result<
        (),
        TcpError,
    >)
        ensures
            *final(self) == ack_step(*old(self), *tcph, data_len as nat).0,
            sent_all(final(out)@, old(out)@, old(self).ip, ack_step(*old(self), *tcph, data_len as nat).1),
            r == ack_step(*old(self), *tcph, data_len as nat).2,
    {
        let ackn = tcph.acknowledgment_number;
        if self.state == State::SynRcvd && is_between_wrapped(
            self.send.una.wrapping_sub(1),
            ackn,
            self.send.nxt.wrapping_add(1),
        ) {
            // the only byte sent so far is the SYN, and it is acknowledged
            self.state = State::Estab;
        }
        if self.state == State::Estab || self.state == State::FinWait1 || self.state
            == State::FinWait2 {
            if is_between_wrapped(self.send.una, ackn, self.send.nxt.wrapping_add(1)) {
                self.send.una = ackn;
                if data_len > 0 {
                    proof {
                        lemma_sent_none(out@, self.ip);
                    }
                    return Err(TcpError::ProtocolViolation);
                }
                if self.state == State::Estab {
                    // the handshake is done: start closing
                    self.tcp.fin = true;
                    let ghost fin = emitted(*self);
                    let ghost before = out@;
                    self.send_control(out);
                    self.state = State::FinWait1;
                    let ghost middle = out@;
                    let ghost closing = *self;
                    let r = self.on_closing(out, tcph);
                    proof {
                        let rest = closing_step(closing, *tcph).1;
                        lemma_sent_concat(before, middle, out@, self.ip, seq![fin], rest);
                    }
                    return r;
                }
            }
        }
        self.on_closing(out, tcph)
    }

    /// Processes one incoming segment with header `tcph` and `data`: tests
    /// it against the receive window, takes in its acknowledgment, moves the
    /// state machine, and appends to `out` each datagram sent meanwhile.
    pub fn on_packet(
        &mut self,
        out: &mut Vec<Vec<u8>>,
        iph: &IpFields,
        tcph: &TcpFields,
        data: &[u8],
    ) -> (r: Result<(), TcpError>)
        requires
            data@.len() <= u32::MAX - 2,
        ensures
            *final(self) == packet_step(*old(self), *tcph, data@.len()).0,
            sent_all(final(out)@, old(out)@, old(self).ip, packet_step(*old(self), *tcph, data@.len()).1),
            r == packet_step(*old(self), *tcph, data@.len()).2,
    {
        proof {
            lemma_sent_none(out@, self.ip);
        }
        if self.state == State::Closed {
            return Ok(());
        }
        let seqn = tcph.sequence_number;
        let mut slen: u32 = data.len() as u32;
        if tcph.fin {
            slen = slen + 1;
        }
        if tcph.syn {
            slen = slen + 1;
        }
        assert(slen == seg_len(data@.len(), *tcph));
        if !is_acceptable(&self.recv, seqn, slen) {
            // answer with an empty ACK of where we are
            self.send_control(out);
            return Ok(());
        }
        self.recv.nxt = seqn.wrapping_add(slen);
        if !tcph.ack {
            return Ok(());
        }
        self.on_ack(out, tcph, data.len())
    }
}

} // verus!
