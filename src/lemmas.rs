//! Properties of the segment test and of the state machine, proved over the
//! step function that `Connection::on_packet` follows.
use vstd::prelude::*;

use crate::codec::TcpFields;
use crate::seq::{seq_between, seq_dist};
use crate::tcp::{
    acceptable, packet_step, seg_len, Connection, RecvSequenceSpace, State, TcpError,
};

verus! {

/// With a closed receive window, a segment taking no sequence space is
/// acceptable exactly when it starts at `recv.nxt`.
pub proof fn lemma_zero_window_empty_segment(recv: RecvSequenceSpace, seqn: u32)
    requires
        recv.wnd == 0,
    ensures
        acceptable(recv, seqn, 0) <==> seqn == recv.nxt,
{
}

/// With a closed receive window, a segment taking sequence space is never
/// acceptable.
pub proof fn lemma_zero_window_rejects_data(recv: RecvSequenceSpace, seqn: u32, slen: u32)
    requires
        recv.wnd == 0,
        slen > 0,
    ensures
        !acceptable(recv, seqn, slen),
{
}

/// A segment whose sequence numbers all lie behind `recv.nxt - 1` (within
/// the half of the sequence space behind it) is delivered again without
/// effect: `recv` does not move back and the state does not change.
pub proof fn lemma_redelivery_is_harmless(c: Connection, t: TcpFields, data_len: nat)
    requires
        seg_len(data_len, t) <= u32::MAX,
        ({
            let slen = seg_len(data_len, t) as u32;
            let last = if slen == 0 {
                t.sequence_number
            } else {
                t.sequence_number.wrapping_add((slen - 1) as u32)
            };
            let edge = c.recv.nxt.wrapping_sub(1);
            0 < seq_dist(last, edge) && seq_dist(t.sequence_number, edge) <= 0x8000_0000 && seq_dist(
                t.sequence_number,
                edge,
            ) == seq_dist(t.sequence_number, last) + seq_dist(last, edge)
        }),
    ensures
        packet_step(c, t, data_len).0.recv == c.recv,
        packet_step(c, t, data_len).0.state == c.state,
{
    let slen = seg_len(data_len, t) as u32;
    assert(!acceptable(c.recv, t.sequence_number, slen));
}

/// In ESTABLISHED, an acceptable ACK that advances `send.una` (short of
/// acknowledging a FIN) sends one FIN segment and moves to FIN-WAIT-1.
pub proof fn lemma_established_ack_sends_fin(c: Connection, t: TcpFields)
    requires
        c.state == State::Estab,
        t.ack,
        !t.fin,
        !t.syn,
        acceptable(c.recv, t.sequence_number, 0),
        seq_between(c.send.una, t.acknowledgment_number, c.send.nxt.wrapping_add(1)),
        t.acknowledgment_number != c.send.iss.wrapping_add(2),
    ensures
        packet_step(c, t, 0).0.state == State::FinWait1,
        packet_step(c, t, 0).0.send.una == t.acknowledgment_number,
        packet_step(c, t, 0).1.len() == 1,
        packet_step(c, t, 0).1[0].fin,
        packet_step(c, t, 0).2 == Ok::<(), TcpError>(()),
{
}

/// In FIN-WAIT-1, an acceptable ACK of `send.iss + 2`, which covers both
/// the SYN and the FIN, moves to FIN-WAIT-2.
pub proof fn lemma_fin_acked(c: Connection, t: TcpFields)
    requires
        c.state == State::FinWait1,
        t.ack,
        !t.fin,
        !t.syn,
        acceptable(c.recv, t.sequence_number, 0),
        t.acknowledgment_number == c.send.iss.wrapping_add(2),
        seq_between(c.send.una, t.acknowledgment_number, c.send.nxt.wrapping_add(1)),
    ensures
        packet_step(c, t, 0).0.state == State::FinWait2,
        packet_step(c, t, 0).1.len() == 0,
        packet_step(c, t, 0).2 == Ok::<(), TcpError>(()),
{
}

/// In FIN-WAIT-2, an acceptable FIN with an acknowledgment is answered by
/// exactly one segment, and the connection moves to TIME-WAIT.
pub proof fn lemma_peer_fin_answered(c: Connection, t: TcpFields)
    requires
        c.state == State::FinWait2,
        t.ack,
        t.fin,
        !t.syn,
        acceptable(c.recv, t.sequence_number, 1),
    ensures
        packet_step(c, t, 0).0.state == State::TimeWait,
        packet_step(c, t, 0).1.len() == 1,
        packet_step(c, t, 0).2 == Ok::<(), TcpError>(()),
{
}

/// TIME-WAIT is final: no segment moves a connection out of it.
pub proof fn lemma_time_wait_is_final(c: Connection, t: TcpFields, data_len: nat)
    requires
        c.state == State::TimeWait,
    ensures
        packet_step(c, t, data_len).0.state == State::TimeWait,
{
}

/// The initial sequence numbers of both sides never change once the
/// connection exists, whatever segment arrives.
pub proof fn lemma_initial_numbers_fixed(c: Connection, t: TcpFields, data_len: nat)
    ensures
        packet_step(c, t, data_len).0.send.iss == c.send.iss,
        packet_step(c, t, data_len).0.recv.irs == c.recv.irs,
        packet_step(c, t, data_len).0.ip == c.ip,
{
}

/// `send.una` only moves forward, and never past what has been sent: after
/// any segment it is unchanged, or lies after the old `send.una` and no
/// further than `send.nxt`.
pub proof fn lemma_una_moves_forward(c: Connection, t: TcpFields, data_len: nat)
    ensures
        packet_step(c, t, data_len).0.send.una == c.send.una || seq_between(
            c.send.una,
            packet_step(c, t, data_len).0.send.una,
            c.send.nxt.wrapping_add(1),
        ),
{
}

} // verus!
