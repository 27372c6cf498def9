//! IBC-lite bridge channels and their packets.

use vstd::prelude::*;
use vstd::string::*;
use vstd::utf8::encode_utf8;
use crate::bytes::{append_bytes, bytes_eq, to_vec};
use crate::crypto::{hash_bytes, le_u64, spec_tagged_hash, tag};
use crate::errors::{fails_with, StateError};
use crate::state::ChainState;
use crate::text::{decimal_string, spec_decimal};
use crate::types::{BridgeChannel, BridgePacket, PacketStatus};

use crate::state::tombstones_kept;

verus! {

/// Key of a sent packet: `channel:seq`.
pub open spec fn sent_key(channel: Seq<char>, seq: u64) -> Seq<char> {
    channel + ":"@ + spec_decimal(seq as nat)
}

/// Key of a received packet: `channel:recv:seq`.
pub open spec fn recv_key(channel: Seq<char>, seq: u64) -> Seq<char> {
    channel + ":recv:"@ + spec_decimal(seq as nat)
}

/// The commitment a relayer must present for a received packet.
pub open spec fn packet_commitment(channel: Seq<u8>, seq: u64, data: Seq<u8>) -> Seq<u8> {
    spec_tagged_hash(tag("AETH/BLOB/V1"), channel + le_u64(seq) + data)
}

/// A channel record with its counters replaced.
pub open spec fn with_seqs(c: BridgeChannel, send: u64, recv: u64) -> BridgeChannel {
    BridgeChannel { next_send_seq: send, next_recv_seq: recv, ..c }
}

fn key_with(channel_id: &str, middle: &str, seq: u64) -> (k: String)
    ensures
        k@ == channel_id@ + middle@ + spec_decimal(seq as nat),
{
    let d = decimal_string(seq as u128);
    let k = String::from_str(channel_id).concat(middle).concat(d.as_str());
    k
}

/// What `apply_bridge_open` does: the state it leaves, the gas it counts and its
/// result, from `s_in` and `gas_in`.
pub open spec fn bridge_open_effect(s_in: ChainState, s_out: ChainState, channel_id: Seq<char>, counterparty_chain: Seq<char>, counterparty_channel: Seq<char>, gas_in: u64, gas_out: u64, r: Result<(), StateError>) -> bool {
    &&& tombstones_kept(s_in.validators@, s_out.validators@)
    &&& gas_out == gas_in + 60000
    &&& s_out == (ChainState { bridges: s_out.bridges, ..s_in })
    &&& channel_id.len() == 0 || counterparty_chain.len() == 0 ==> fails_with(r, "empty channel fields"@)
    && s_out == s_in
    &&& channel_id.len() > 0 && counterparty_chain.len() > 0 && s_in.bridges@.contains_key(channel_id) ==> fails_with(
        r,
        "channel exists"@,
    ) && s_out == s_in
    &&& channel_id.len() > 0 && counterparty_chain.len() > 0 && !s_in.bridges@.contains_key(channel_id) ==> {
        &&& r is Ok
        &&& s_out.bridges@.dom() == s_in.bridges@.dom().insert(channel_id)
        &&& forall|k: Seq<char>| k != channel_id && #[trigger] s_in.bridges@.contains_key(k) ==> s_out.bridges@[k]
            == s_in.bridges@[k]
        &&& s_out.bridges@[channel_id].channel_id@ == channel_id
        &&& s_out.bridges@[channel_id].counterparty_chain@ == counterparty_chain
        &&& s_out.bridges@[channel_id].counterparty_channel@ == counterparty_channel
        &&& s_out.bridges@[channel_id].next_send_seq == 1
        &&& s_out.bridges@[channel_id].next_recv_seq == 1
        &&& !s_out.bridges@[channel_id].closed
    }
}

/// What `apply_bridge_send` does: the state it leaves, the gas it counts and its
/// result, from `s_in` and `gas_in`.
pub open spec fn bridge_send_effect(s_in: ChainState, s_out: ChainState, channel_id: Seq<char>, data: Seq<u8>, timeout_height: u64, gas_in: u64, gas_out: u64, r: Result<(), StateError>) -> bool {
    &&& tombstones_kept(s_in.validators@, s_out.validators@)
    &&& gas_out == gas_in + 40000 + 8 * data.len()
    &&& s_out == (ChainState { bridges: s_out.bridges, bridge_packets: s_out.bridge_packets, ..s_in })
    &&& ({
        let bs = s_in.bridges@;
        let k = channel_id;
        &&& !bs.contains_key(k) ==> fails_with(r, "unknown channel"@) && s_out == s_in
        &&& bs.contains_key(k) && bs[k].closed ==> fails_with(r, "channel closed"@) && s_out == s_in
        &&& bs.contains_key(k) && !bs[k].closed ==> {
            let seq = bs[k].next_send_seq;
            let pk = sent_key(k, seq);
            &&& r is Ok
            &&& s_out.bridges@ == bs.insert(k, with_seqs(bs[k], (seq + 1) as u64, bs[k].next_recv_seq))
            &&& s_out.bridge_packets@.dom() == s_in.bridge_packets@.dom().insert(pk)
            &&& forall|j: Seq<char>| j != pk && #[trigger] s_in.bridge_packets@.contains_key(j) ==> s_out.bridge_packets@[j] == s_in.bridge_packets@[j]
            &&& s_out.bridge_packets@[pk].channel_id@ == k
            &&& s_out.bridge_packets@[pk].sequence == seq
            &&& s_out.bridge_packets@[pk].data@ == data
            &&& s_out.bridge_packets@[pk].timeout_height == timeout_height
            &&& s_out.bridge_packets@[pk].status == PacketStatus::Sent
        }
    })
}

/// What `apply_bridge_recv` does: the state it leaves, the gas it counts and its
/// result, from `s_in` and `gas_in`.
pub open spec fn bridge_recv_effect(s_in: ChainState, s_out: ChainState, channel_id: Seq<char>, sequence: u64, data: Seq<u8>, proof: Seq<u8>, gas_in: u64, gas_out: u64, r: Result<(), StateError>) -> bool {
    &&& tombstones_kept(s_in.validators@, s_out.validators@)
    &&& gas_out == gas_in + 50000
    &&& s_out == (ChainState { bridges: s_out.bridges, bridge_packets: s_out.bridge_packets, ..s_in })
    &&& ({
        let bs = s_in.bridges@;
        let k = channel_id;
        &&& !bs.contains_key(k) ==> fails_with(r, "unknown channel"@) && s_out == s_in
        &&& bs.contains_key(k) && bs[k].closed ==> fails_with(r, "channel closed"@) && s_out == s_in
        &&& bs.contains_key(k) && !bs[k].closed && sequence != bs[k].next_recv_seq ==> fails_with(r, "out of order packet"@)
            && s_out == s_in
        &&& bs.contains_key(k) && !bs[k].closed && sequence == bs[k].next_recv_seq && proof != packet_commitment(
            encode_utf8(channel_id),
            sequence,
            data,
        ) ==> fails_with(r, "bad packet proof"@) && s_out == s_in
        &&& bs.contains_key(k) && !bs[k].closed && sequence == bs[k].next_recv_seq && proof == packet_commitment(
            encode_utf8(channel_id),
            sequence,
            data,
        ) ==> {
            let pk = recv_key(k, sequence);
            &&& r is Ok
            &&& s_out.bridges@ == bs.insert(k, with_seqs(bs[k], bs[k].next_send_seq, (sequence + 1) as u64))
            &&& s_out.bridge_packets@.dom() == s_in.bridge_packets@.dom().insert(pk)
            &&& forall|j: Seq<char>| j != pk && #[trigger] s_in.bridge_packets@.contains_key(j) ==> s_out.bridge_packets@[j] == s_in.bridge_packets@[j]
            &&& s_out.bridge_packets@[pk].sequence == sequence
            &&& s_out.bridge_packets@[pk].data@ == data
            &&& s_out.bridge_packets@[pk].timeout_height == 0
            &&& s_out.bridge_packets@[pk].status == PacketStatus::Received
        }
    })
}

/// What `apply_bridge_ack` does: the state it leaves, the gas it counts and its
/// result, from `s_in` and `gas_in`.
pub open spec fn bridge_ack_effect(s_in: ChainState, s_out: ChainState, channel_id: Seq<char>, sequence: u64, acknowledgement: Seq<u8>, gas_in: u64, gas_out: u64, r: Result<(), StateError>) -> bool {
    &&& tombstones_kept(s_in.validators@, s_out.validators@)
    &&& gas_out == gas_in + 30000
    &&& s_out == (ChainState { bridge_packets: s_out.bridge_packets, ..s_in })
    &&& ({
        let ps = s_in.bridge_packets@;
        let pk = sent_key(channel_id, sequence);
        &&& !ps.contains_key(pk) ==> fails_with(r, "unknown packet"@) && s_out == s_in
        &&& ps.contains_key(pk) && ps[pk].status != PacketStatus::Sent ==> fails_with(r, "packet not awaiting ack"@)
            && s_out == s_in
        &&& ps.contains_key(pk) && ps[pk].status == PacketStatus::Sent ==> {
            &&& r is Ok
            &&& s_out.bridge_packets@.dom() == ps.dom()
            &&& forall|j: Seq<char>| j != pk && #[trigger] ps.contains_key(j) ==> s_out.bridge_packets@[j] == ps[j]
            &&& s_out.bridge_packets@[pk].status == PacketStatus::Acked
            &&& s_out.bridge_packets@[pk].data@ == acknowledgement
            &&& s_out.bridge_packets@[pk].sequence == ps[pk].sequence
            &&& s_out.bridge_packets@[pk].channel_id == ps[pk].channel_id
            &&& s_out.bridge_packets@[pk].timeout_height == ps[pk].timeout_height
        }
    })
}

impl ChainState {
    /// Opens channel `channel_id` to a counterparty, both counters at 1.
    pub(crate) fn apply_bridge_open(
        &mut self,
        channel_id: &str,
        counterparty_chain: &str,
        counterparty_channel: &str,
        gas_used: &mut u64,
    ) -> (r: Result<(), StateError>)
        requires
            *old(gas_used) + 60000 <= u64::MAX,
        ensures
            bridge_open_effect(*old(self), *final(self), channel_id@, counterparty_chain@, counterparty_channel@, *old(gas_used), *final(gas_used), r),
    {
        *gas_used = *gas_used + 60000;
        if channel_id.unicode_len() == 0 || counterparty_chain.unicode_len() == 0 {
            return Err(StateError::InvalidTx(String::from_str("empty channel fields")));
        }
        let key = String::from_str(channel_id);
        if self.bridges.contains_key(&key) {
            return Err(StateError::InvalidTx(String::from_str("channel exists")));
        }
        self.bridges.insert(
            key,
            BridgeChannel {
                channel_id: String::from_str(channel_id),
                counterparty_chain: String::from_str(counterparty_chain),
                counterparty_channel: String::from_str(counterparty_channel),
                next_send_seq: 1,
                next_recv_seq: 1,
                closed: false,
            },
        );
        proof {
            assert(self.bridges@.dom() =~= old(self).bridges@.dom().insert(channel_id@));
        }
        Ok(())
    }

    /// Sends `data` on an open channel under its next send sequence.
    pub(crate) fn apply_bridge_send(&mut self, channel_id: &str, data: &[u8], timeout_height: u64, gas_used: &mut u64) -> (r:
        Result<(), StateError>)
        requires
            *old(gas_used) + 40000 + 8 * data.len() <= u64::MAX,
            old(self).bridges@.contains_key(channel_id@) ==> old(self).bridges@[channel_id@].next_send_seq < u64::MAX,
        ensures
            bridge_send_effect(*old(self), *final(self), channel_id@, data@, timeout_height, *old(gas_used), *final(gas_used), r),
    {
        *gas_used = *gas_used + 40000 + (data.len() as u64) * 8;
        let key = String::from_str(channel_id);
        match self.bridges.get(&key) {
            None => {
                return Err(StateError::InvalidTx(String::from_str("unknown channel")));
            },
            Some(ch) => {
                if ch.closed {
                    return Err(StateError::InvalidTx(String::from_str("channel closed")));
                }
            },
        }
        let mut ch = match self.bridges.remove(&key) {
            Some(c) => c,
            None => {
                return Err(StateError::InvalidTx(String::from_str("unknown channel")));
            },
        };
        let seq = ch.next_send_seq;
        ch.next_send_seq = ch.next_send_seq + 1;
        let ghost c2 = ch;
        self.bridges.insert(key, ch);
        proof {
            assert(self.bridges@ =~= old(self).bridges@.insert(channel_id@, c2));
        }
        let pk = key_with(channel_id, ":", seq);
        let ghost pkv = pk@;
        self.bridge_packets.insert(
            pk,
            BridgePacket {
                channel_id: String::from_str(channel_id),
                sequence: seq,
                data: to_vec(data),
                timeout_height,
                status: PacketStatus::Sent,
            },
        );
        proof {
            assert(self.bridge_packets@.dom() =~= old(self).bridge_packets@.dom().insert(pkv));
        }
        Ok(())
    }

    /// Receives the packet `sequence` of an open channel, in order, when
    /// `proof` is the packet's commitment.
    pub(crate) fn apply_bridge_recv(
        &mut self,
        channel_id: &str,
        sequence: u64,
        data: &[u8],
        proof: &[u8],
        gas_used: &mut u64,
    ) -> (r: Result<(), StateError>)
        requires
            *old(gas_used) + 50000 <= u64::MAX,
            old(self).bridges@.contains_key(channel_id@) ==> old(self).bridges@[channel_id@].next_recv_seq < u64::MAX,
        ensures
            bridge_recv_effect(*old(self), *final(self), channel_id@, sequence, data@, proof@, *old(gas_used), *final(gas_used), r),
    {
        *gas_used = *gas_used + 50000;
        let key = String::from_str(channel_id);
        match self.bridges.get(&key) {
            None => {
                return Err(StateError::InvalidTx(String::from_str("unknown channel")));
            },
            Some(ch) => {
                if ch.closed {
                    return Err(StateError::InvalidTx(String::from_str("channel closed")));
                }
                if sequence != ch.next_recv_seq {
                    return Err(StateError::InvalidTx(String::from_str("out of order packet")));
                }
            },
        }
        let mut buf: Vec<u8> = Vec::new();
        append_bytes(&mut buf, channel_id.as_bytes());
        let sb = vstd::bytes::u64_to_le_bytes(sequence);
        append_bytes(&mut buf, sb.as_slice());
        append_bytes(&mut buf, data);
        let expect = hash_bytes(buf.as_slice());
        if !bytes_eq(proof, expect.as_slice()) {
            return Err(StateError::InvalidTx(String::from_str("bad packet proof")));
        }
        let mut ch = match self.bridges.remove(&key) {
            Some(c) => c,
            None => {
                return Err(StateError::InvalidTx(String::from_str("unknown channel")));
            },
        };
        ch.next_recv_seq = ch.next_recv_seq + 1;
        let ghost c2 = ch;
        self.bridges.insert(key, ch);
        proof {
            assert(self.bridges@ =~= old(self).bridges@.insert(channel_id@, c2));
        }
        let pk = key_with(channel_id, ":recv:", sequence);
        let ghost pkv = pk@;
        self.bridge_packets.insert(
            pk,
            BridgePacket {
                channel_id: String::from_str(channel_id),
                sequence,
                data: to_vec(data),
                timeout_height: 0,
                status: PacketStatus::Received,
            },
        );
        proof {
            assert(self.bridge_packets@.dom() =~= old(self).bridge_packets@.dom().insert(pkv));
        }
        Ok(())
    }

    /// Records the acknowledgement of a sent packet awaiting one.
    pub(crate) fn apply_bridge_ack(&mut self, channel_id: &str, sequence: u64, acknowledgement: &[u8], gas_used: &mut u64) -> (r:
        Result<(), StateError>)
        requires
            *old(gas_used) + 30000 <= u64::MAX,
        ensures
            bridge_ack_effect(*old(self), *final(self), channel_id@, sequence, acknowledgement@, *old(gas_used), *final(gas_used), r),
    {
        *gas_used = *gas_used + 30000;
        let pk = key_with(channel_id, ":", sequence);
        match self.bridge_packets.get(&pk) {
            None => {
                return Err(StateError::InvalidTx(String::from_str("unknown packet")));
            },
            Some(p) => {
                if p.status != PacketStatus::Sent {
                    return Err(StateError::InvalidTx(String::from_str("packet not awaiting ack")));
                }
            },
        }
        let ghost pkv = pk@;
        let mut p = match self.bridge_packets.remove(&pk) {
            Some(p) => p,
            None => {
                return Err(StateError::InvalidTx(String::from_str("unknown packet")));
            },
        };
        p.status = PacketStatus::Acked;
        p.data = to_vec(acknowledgement);
        self.bridge_packets.insert(pk, p);
        proof {
            assert(self.bridge_packets@.dom() =~= old(self).bridge_packets@.dom());
        }
        Ok(())
    }
}

} // verus!
