//! The gossip layer's bookkeeping: which peers are online, how useful or
//! faulty each has been, which are banned, and the framing of messages on
//! the wire (a little-endian `u32` length, then the body).

use vstd::prelude::*;
use crate::consensus::{CommitCertificate, Vote};
use crate::crypto::le_u32;
use crate::kvmap::KeyedVec;
use crate::text::{decimal_string, spec_decimal, str_eq};
use crate::types::{Block, Transaction};

verus! {

/// Largest frame body accepted from a peer, in bytes.
pub const MAX_FRAME: usize = 4194304;

/// Invalid messages from a peer before it may be banned.
pub const BAN_THRESHOLD: u64 = 32;

/// A message exchanged between nodes.
#[derive(Clone, Debug)]
pub enum GossipMessage {
    Handshake { chain_id: String, height: u64, peer_id: String, listen: String },
    Transaction(Transaction),
    Block(Block),
    Vote(Vote),
    Commit(CommitCertificate),
    Status { chain_id: String, height: u64, peer_id: String },
    SnapshotOffer { height: u64, state_root: String, bytes_len: u64 },
}

/// How many useful and how many invalid messages a peer has sent.
#[derive(Clone, Copy, Debug)]
pub struct PeerScore {
    pub useful: u64,
    pub invalid: u64,
}

/// `2 * x`, saturating at `u64::MAX`.
pub open spec fn double_sat(x: u64) -> int {
    if 2 * x > u64::MAX { u64::MAX as int } else { 2 * x }
}

/// A peer is banned once it has sent at least `BAN_THRESHOLD` invalid
/// messages and more than twice as many invalid as useful ones.
pub open spec fn should_ban(s: PeerScore) -> bool {
    s.invalid >= BAN_THRESHOLD && s.invalid > double_sat(s.useful)
}

/// The score a peer has before anything was counted for it.
pub open spec fn fresh_score() -> PeerScore {
    PeerScore { useful: 0, invalid: 0 }
}

/// The score of `id` in `scores`, or a fresh one.
pub open spec fn score_or_fresh(scores: Map<Seq<char>, PeerScore>, id: Seq<char>) -> PeerScore {
    if scores.contains_key(id) { scores[id] } else { fresh_score() }
}

/// `s` with one more invalid message.
pub open spec fn with_invalid(s: PeerScore) -> PeerScore {
    PeerScore { invalid: (s.invalid + 1) as u64, ..s }
}

/// `s` with one more useful message.
pub open spec fn with_useful(s: PeerScore) -> PeerScore {
    PeerScore { useful: (s.useful + 1) as u64, ..s }
}

/// Peers, scores and bans of one node.
pub struct PeerBook {
    peers: KeyedVec<String, ()>,
    scores: KeyedVec<String, PeerScore>,
    bans: KeyedVec<String, ()>,
}

impl PeerBook {
    /// No banned peer is ever among the online peers.
    #[verifier::type_invariant]
    spec fn no_banned_peer(self) -> bool {
        forall|k: Seq<char>| #[trigger] self.peers@.contains_key(k) ==> !self.bans@.contains_key(k)
    }

    /// Ids of the online peers.
    pub closed spec fn peer_set(self) -> Set<Seq<char>> {
        self.peers@.dom()
    }

    /// Ids of the banned peers.
    pub closed spec fn banned(self) -> Set<Seq<char>> {
        self.bans@.dom()
    }

    /// The score of each peer that has one.
    pub closed spec fn score_map(self) -> Map<Seq<char>, PeerScore> {
        self.scores@
    }

    /// No online peer is banned.
    pub open spec fn online_not_banned(self) -> bool {
        forall|k: Seq<char>| #[trigger] self.peer_set().contains(k) ==> !self.banned().contains(k)
    }

    /// An empty book.
    pub fn new() -> (b: Self)
        ensures
            b.peer_set() == Set::<Seq<char>>::empty(),
            b.banned() == Set::<Seq<char>>::empty(),
            b.score_map() == Map::<Seq<char>, PeerScore>::empty(),
            b.online_not_banned(),
    {
        let b = PeerBook { peers: KeyedVec::new(), scores: KeyedVec::new(), bans: KeyedVec::new() };
        proof {
            assert(b.peers@.dom() == Set::<Seq<char>>::empty());
            assert(b.bans@.dom() == Set::<Seq<char>>::empty());
        }
        b
    }

    /// Whether `id` is banned.
    pub fn is_banned(&self, id: &str) -> (r: bool)
        ensures
            r == self.banned().contains(id@),
    {
        let k = String::from_str(id);
        self.bans.contains_key(&k)
    }

    /// Number of online peers.
    pub fn peer_count(&self) -> (n: usize)
        ensures
            n == self.peer_set().len(),
    {
        self.peers.len()
    }

    /// The score of `id`, if it has one.
    pub fn score_of(&self, id: &str) -> (r: Option<PeerScore>)
        ensures
            r == (if self.score_map().contains_key(id@) { Some(self.score_map()[id@]) } else { None::<PeerScore> }),
    {
        let k = String::from_str(id);
        match self.scores.get(&k) {
            Some(s) => Some(*s),
            None => None,
        }
    }

    /// Every scored peer with its useful and invalid counts.
    pub fn peer_scores(&self) -> (r: Vec<(String, u64, u64)>)
        ensures
            r.len() == self.score_map().dom().len(),
            forall|i: int|
                0 <= i < r.len() ==> #[trigger] self.score_map().contains_key(r[i].0@) && self.score_map()[r[i].0@]
                    == (PeerScore { useful: r[i].1, invalid: r[i].2 }),
            forall|k: Seq<char>| #[trigger] self.score_map().contains_key(k) ==> exists|i: int| 0 <= i < r.len() && (#[trigger] r[i]).0@ == k,
    {
        self.scores.reveal_entries();
        let n = self.scores.len();
        let mut out: Vec<(String, u64, u64)> = Vec::new();
        let mut i: usize = 0;
        while i < n
            invariant
                n == self.scores.entries().len(),
                i <= n,
                out.len() == i,
                forall|j: int| 0 <= j < i ==> (#[trigger] out[j]).0@ == self.scores.entries()[j].0@ && out[j].1
                    == self.scores.entries()[j].1.useful && out[j].2 == self.scores.entries()[j].1.invalid,
            decreases n - i,
        {
            let e = self.scores.entry(i);
            out.push((e.0.clone(), e.1.useful, e.1.invalid));
            i = i + 1;
        }
        proof {
            assert forall|j: int| 0 <= j < out.len() implies #[trigger] self.score_map().contains_key(out[j].0@)
                && self.score_map()[out[j].0@] == (PeerScore { useful: out[j].1, invalid: out[j].2 }) by {
                assert(self.scores@.contains_key(self.scores.entries()[j].0@));
            }
            assert forall|k: Seq<char>| #[trigger] self.score_map().contains_key(k) implies exists|j: int|
                0 <= j < out.len() && (#[trigger] out[j]).0@ == k by {
                let j = choose|j: int| 0 <= j < self.scores.entries().len() && (#[trigger] self.scores.entries()[j]).0@ == k;
                assert(out[j].0@ == k);
            }
        }
        out
    }

    fn set_score(&mut self, k: String, v: PeerScore)
        ensures
            final(self).scores@ == old(self).scores@.insert(k@, v),
            final(self).peers@ == old(self).peers@,
            final(self).bans@ == old(self).bans@,
    {
        proof {
            use_type_invariant(&*self);
        }
        let mut scores = KeyedVec::new();
        std::mem::swap(&mut scores, &mut self.scores);
        scores.insert(k, v);
        self.scores = scores;
    }

    /// Puts `id` online with a score (kept if it had one). A banned id is
    /// ignored; the result says whether it was registered.
    pub fn register_peer(&mut self, id: String) -> (registered: bool)
        ensures
            registered == !old(self).banned().contains(id@),
            final(self).banned() == old(self).banned(),
            registered ==> final(self).peer_set() == old(self).peer_set().insert(id@),
            registered ==> final(self).score_map() == old(self).score_map().insert(id@, score_or_fresh(old(self).score_map(), id@)),
            !registered ==> final(self).peer_set() == old(self).peer_set() && final(self).score_map() == old(self).score_map(),
            final(self).online_not_banned(),
    {
        proof {
            use_type_invariant(&*self);
        }
        if self.bans.contains_key(&id) {
            return false;
        }
        let k = id.clone();
        let scored = match self.scores.get(&id) {
            Some(s) => *s,
            None => PeerScore { useful: 0, invalid: 0 },
        };
        let ghost old_scores = self.scores@;
        self.set_score(id, scored);
        let mut peers = KeyedVec::new();
        std::mem::swap(&mut peers, &mut self.peers);
        peers.insert(k, ());
        self.peers = peers;
        proof {
            assert(self.scores@ == old_scores.insert(id@, score_or_fresh(old_scores, id@)));
            use_type_invariant(&*self);
        }
        true
    }

    /// Bans `id` and takes it offline; its score stays.
    pub fn ban_peer(&mut self, id: &str)
        ensures
            final(self).banned() == old(self).banned().insert(id@),
            final(self).peer_set() == old(self).peer_set().remove(id@),
            final(self).score_map() == old(self).score_map(),
            final(self).online_not_banned(),
    {
        proof {
            use_type_invariant(&*self);
        }
        let k = String::from_str(id);
        let k2 = String::from_str(id);
        let mut peers = KeyedVec::new();
        std::mem::swap(&mut peers, &mut self.peers);
        let _ = peers.remove(&k);
        let mut bans = KeyedVec::new();
        std::mem::swap(&mut bans, &mut self.bans);
        bans.insert(k2, ());
        self.bans = bans;
        self.peers = peers;
        proof {
            use_type_invariant(&*self);
        }
    }

    /// Counts a useful message from `peer`, if it has a score.
    pub fn bump_useful(&mut self, peer: &str)
        requires
            old(self).score_map().contains_key(peer@) ==> old(self).score_map()[peer@].useful < u64::MAX,
        ensures
            final(self).peer_set() == old(self).peer_set(),
            final(self).banned() == old(self).banned(),
            final(self).score_map() == (if old(self).score_map().contains_key(peer@) {
                old(self).score_map().insert(peer@, with_useful(old(self).score_map()[peer@]))
            } else {
                old(self).score_map()
            }),
            final(self).online_not_banned(),
    {
        proof {
            use_type_invariant(&*self);
        }
        let k = String::from_str(peer);
        let cur = match self.scores.get(&k) {
            Some(s) => *s,
            None => {
                return;
            },
        };
        let next = PeerScore { useful: cur.useful + 1, invalid: cur.invalid };
        self.set_score(k, next);
        proof {
            use_type_invariant(&*self);
        }
    }

    /// Counts an invalid message from `peer` (scoring it first if needed)
    /// and bans it when the ban rule holds. The result says whether it was
    /// banned by this call.
    pub fn bump_invalid(&mut self, peer: &str) -> (banned_now: bool)
        requires
            score_or_fresh(old(self).score_map(), peer@).invalid < u64::MAX,
        ensures
            banned_now == should_ban(with_invalid(score_or_fresh(old(self).score_map(), peer@))),
            final(self).score_map() == old(self).score_map().insert(peer@, with_invalid(score_or_fresh(old(self).score_map(), peer@))),
            banned_now ==> final(self).banned() == old(self).banned().insert(peer@)
                && final(self).peer_set() == old(self).peer_set().remove(peer@),
            !banned_now ==> final(self).banned() == old(self).banned() && final(self).peer_set() == old(self).peer_set(),
            final(self).online_not_banned(),
    {
        let k = String::from_str(peer);
        let cur = match self.scores.get(&k) {
            Some(s) => *s,
            None => PeerScore { useful: 0, invalid: 0 },
        };
        let next = PeerScore { useful: cur.useful, invalid: cur.invalid + 1 };
        self.set_score(k, next);
        let limit: u64 = match cur.useful.checked_mul(2) {
            Some(d) => d,
            None => u64::MAX,
        };
        if next.invalid >= BAN_THRESHOLD && next.invalid > limit {
            self.ban_peer(peer);
            true
        } else {
            proof {
                use_type_invariant(&*self);
            }
            false
        }
    }

    /// Handles a peer's handshake: a banned peer is refused; one on
    /// another chain is refused and counted as invalid; otherwise it is
    /// registered.
    pub fn on_handshake(&mut self, peer_id: &str, chain_id: &str, local_chain: &str) -> (v: HandshakeVerdict)
        requires
            score_or_fresh(old(self).score_map(), peer_id@).invalid < u64::MAX,
        ensures
            old(self).banned().contains(peer_id@) ==> v == HandshakeVerdict::RejectBanned && final(self).peer_set()
                == old(self).peer_set() && final(self).banned() == old(self).banned() && final(self).score_map()
                == old(self).score_map(),
            !old(self).banned().contains(peer_id@) && chain_id@ != local_chain@ ==> v == HandshakeVerdict::RejectChain
                && final(self).score_map() == old(self).score_map().insert(peer_id@, with_invalid(score_or_fresh(old(self).score_map(), peer_id@))),
            !old(self).banned().contains(peer_id@) && chain_id@ == local_chain@ ==> v == HandshakeVerdict::Accept
                && final(self).peer_set() == old(self).peer_set().insert(peer_id@) && final(self).banned() == old(self).banned(),
            final(self).online_not_banned(),
    {
        proof {
            use_type_invariant(&*self);
        }
        if self.is_banned(peer_id) {
            return HandshakeVerdict::RejectBanned;
        }
        if !str_eq(chain_id, local_chain) {
            let _ = self.bump_invalid(peer_id);
            return HandshakeVerdict::RejectChain;
        }
        let _ = self.register_peer(String::from_str(peer_id));
        HandshakeVerdict::Accept
    }
}

/// What became of a handshake.
#[derive(Clone, Copy, Debug, PartialEq, Eq, Structural)]
pub enum HandshakeVerdict {
    Accept,
    RejectBanned,
    RejectChain,
}

/// A frame on the wire: the body's length as a little-endian `u32`, then
/// the body.
pub open spec fn spec_frame(body: Seq<u8>) -> Seq<u8> {
    le_u32(body.len() as u32) + body
}

/// Frames `body`.
pub fn encode_frame(body: &[u8]) -> (out: Vec<u8>)
    requires
        body.len() <= u32::MAX,
    ensures
        out@ == spec_frame(body@),
{
    let n = body.len() as u32;
    let mut out = vstd::bytes::u32_to_le_bytes(n);
    crate::bytes::append_bytes(&mut out, body);
    out
}

/// The body length that a frame's 4-byte prefix announces.
pub open spec fn announced_len(prefix: Seq<u8>) -> u32 {
    vstd::bytes::spec_u32_from_le_bytes(prefix)
}

/// The message for a frame length that is refused.
pub open spec fn frame_len_error(len: u32) -> Seq<char> {
    "invalid frame len "@ + spec_decimal(len as nat)
}

/// Reads a frame's length prefix: lengths of 0 and above `MAX_FRAME` are
/// refused.
pub fn frame_body_len(prefix: &[u8]) -> (r: Result<usize, String>)
    requires
        prefix.len() == 4,
    ensures
        match r {
            Ok(n) => n == announced_len(prefix@) && 0 < n <= MAX_FRAME,
            Err(m) => (announced_len(prefix@) == 0 || announced_len(prefix@) > MAX_FRAME) && m@ == frame_len_error(
                announced_len(prefix@),
            ),
        },
{
    let len = vstd::bytes::u32_from_le_bytes(prefix);
    if len == 0 || len as usize > MAX_FRAME {
        let d = decimal_string(len as u128);
        let m = String::from_str("invalid frame len ").concat(d.as_str());
        return Err(m);
    }
    Ok(len as usize)
}

/// Reading back the prefix of a frame gives the body's length, which is
/// accepted when the body is not empty and not above `MAX_FRAME`.
pub proof fn law_frame_length_roundtrip(body: Seq<u8>)
    requires
        body.len() <= u32::MAX,
    ensures
        spec_frame(body).subrange(0, 4).len() == 4,
        announced_len(spec_frame(body).subrange(0, 4)) == body.len(),
        spec_frame(body).subrange(4, spec_frame(body).len() as int) == body,
{
    vstd::bytes::lemma_auto_spec_u32_to_from_le_bytes();
    let p = le_u32(body.len() as u32);
    assert(spec_frame(body).subrange(0, 4) == p);
    assert(spec_frame(body).subrange(4, spec_frame(body).len() as int) == body);
}

} // verus!
