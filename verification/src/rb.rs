//! The reliable-broadcast protocol.
//!
//! Bracha-style broadcast over a fixed cluster of `n` nodes tolerating
//! `f = (n - 1) / 3` faults. An originator opens a round by broadcasting
//! `Initial`; every node that first hears an `Initial` re-broadcasts an
//! `Echo` for it; a node that has witnessed `n - f` echoes for one value
//! casts a `Vote`; `f + 1` votes amplify into a vote of one's own, and
//! `2f + 1` votes commit the value: the node records it as delivered for
//! that originator and round, irrevocably.
//!
//! Packets whose destination is another node, whose source is not a
//! cluster member, or which speak about an originator outside the
//! cluster are dropped: every address the state ever stores is a member
//! of the cluster.
//!
//! The transition functions are pure: each takes the node state and one
//! input and returns the outbound packets, mutating the state exactly as
//! the corresponding specification-level transition says.

use crate::bytes::{bytes_eq, copy_bytes};
use crate::table::{copy_vec, SlotTable, TallyTable};
use vstd::prelude::*;

verus! {

/// A message of the reliable-broadcast protocol. In `Initial` the
/// originator is implicit: it is the packet's source.
pub enum Message {
    Initial { round: u64, value: Vec<u8> },
    Echo { originator: u64, round: u64, value: Vec<u8> },
    Vote { originator: u64, round: u64, value: Vec<u8> },
}

/// Mathematical shape of a [`Message`].
pub enum MessageModel {
    Initial { round: u64, value: Seq<u8> },
    Echo { originator: u64, round: u64, value: Seq<u8> },
    Vote { originator: u64, round: u64, value: Seq<u8> },
}

impl View for Message {
    type V = MessageModel;

    open spec fn view(&self) -> MessageModel {
        match self {
            Message::Initial { round, value } => MessageModel::Initial {
                round: *round,
                value: value@,
            },
            Message::Echo { originator, round, value } => MessageModel::Echo {
                originator: *originator,
                round: *round,
                value: value@,
            },
            Message::Vote { originator, round, value } => MessageModel::Vote {
                originator: *originator,
                round: *round,
                value: value@,
            },
        }
    }
}

impl Clone for Message {
    fn clone(&self) -> (res: Message)
        ensures
            res@ == self@,
    {
        match self {
            Message::Initial { round, value } => Message::Initial {
                round: *round,
                value: copy_bytes(value),
            },
            Message::Echo { originator, round, value } => Message::Echo {
                originator: *originator,
                round: *round,
                value: copy_bytes(value),
            },
            Message::Vote { originator, round, value } => Message::Vote {
                originator: *originator,
                round: *round,
                value: copy_bytes(value),
            },
        }
    }
}

impl Message {
    /// The round this message speaks about.
    pub fn get_round(&self) -> (r: u64)
        ensures
            r == spec_round_of(self@),
    {
        match self {
            Message::Initial { round, .. } => *round,
            Message::Echo { round, .. } => *round,
            Message::Vote { round, .. } => *round,
        }
    }
}

/// The round a message speaks about.
pub open spec fn spec_round_of(m: MessageModel) -> u64 {
    match m {
        MessageModel::Initial { round, .. } => round,
        MessageModel::Echo { round, .. } => round,
        MessageModel::Vote { round, .. } => round,
    }
}

/// One addressed transmission of a [`Message`]. `consumed` marks a
/// delivered packet that the state machine has already processed, so a
/// transcript of packets can be replayed or audited.
pub struct Packet {
    pub src: u64,
    pub dst: u64,
    pub msg: Message,
    pub consumed: bool,
}

/// Mathematical shape of a [`Packet`].
#[verifier::ext_equal]
pub struct PacketModel {
    pub src: u64,
    pub dst: u64,
    pub msg: MessageModel,
    pub consumed: bool,
}

impl View for Packet {
    type V = PacketModel;

    open spec fn view(&self) -> PacketModel {
        PacketModel { src: self.src, dst: self.dst, msg: self.msg@, consumed: self.consumed }
    }
}

impl Clone for Packet {
    fn clone(&self) -> (res: Packet)
        ensures
            res@ == self@,
    {
        Packet { src: self.src, dst: self.dst, msg: self.msg.clone(), consumed: self.consumed }
    }
}

/// The views of a vector of packets.
pub open spec fn packet_views(s: Seq<Packet>) -> Seq<PacketModel> {
    s.map_values(|p: Packet| p@)
}

/// Per-node state of the reliable-broadcast protocol.
pub struct NodeState {
    pub address: u64,
    /// Rounds this node itself originated.
    pub sent: Vec<u64>,
    /// Per (originator, round), the value this node echoed.
    pub echoed: SlotTable<Vec<u8>>,
    /// Per (originator, round), the value this node voted for.
    pub voted: SlotTable<Vec<u8>>,
    /// Per (originator, round, value), the distinct peers whose echo
    /// this node witnessed.
    pub echo_counts: TallyTable<Vec<u64>>,
    /// Per (originator, round, value), the distinct peers whose vote
    /// this node witnessed.
    pub vote_counts: TallyTable<Vec<u64>>,
    /// Per (originator, round), the irrevocably delivered value.
    pub delivered: SlotTable<Vec<u8>>,
}

/// Mathematical shape of a [`NodeState`].
#[verifier::ext_equal]
pub struct RbState {
    pub address: u64,
    pub sent: Set<u64>,
    pub echoed: Map<(u64, u64), Seq<u8>>,
    pub voted: Map<(u64, u64), Seq<u8>>,
    pub echo_counts: Map<(u64, u64, Seq<u8>), Seq<u64>>,
    pub vote_counts: Map<(u64, u64, Seq<u8>), Seq<u64>>,
    pub delivered: Map<(u64, u64), Seq<u8>>,
}

impl View for NodeState {
    type V = RbState;

    open spec fn view(&self) -> RbState {
        RbState {
            address: self.address,
            sent: self.sent@.to_set(),
            echoed: self.echoed@,
            voted: self.voted@,
            echo_counts: self.echo_counts@,
            vote_counts: self.vote_counts@,
            delivered: self.delivered@,
        }
    }
}

/// The state of a node that has seen nothing yet.
pub open spec fn spec_init_state(address: u64) -> RbState {
    RbState {
        address,
        sent: Set::empty(),
        echoed: Map::empty(),
        voted: Map::empty(),
        echo_counts: Map::empty(),
        vote_counts: Map::empty(),
        delivered: Map::empty(),
    }
}

impl NodeState {
    /// A fresh node state for `address`.
    pub fn new(address: u64) -> (s: Self)
        ensures
            s@ == spec_init_state(address),
    {
        let s = NodeState {
            address,
            sent: Vec::new(),
            echoed: SlotTable::new(),
            voted: SlotTable::new(),
            echo_counts: TallyTable::new(),
            vote_counts: TallyTable::new(),
            delivered: SlotTable::new(),
        };
        proof {
            assert(s.sent@.to_set() =~= Set::<u64>::empty());
        }
        s
    }

    /// Whether this node originated round `r` itself.
    pub fn sent_contains(&self, r: u64) -> (res: bool)
        ensures
            res == self@.sent.contains(r),
    {
        let mut i: usize = 0;
        while i < self.sent.len()
            invariant
                i <= self.sent.len(),
                forall|j: int| 0 <= j < i ==> self.sent@[j] != r,
            decreases self.sent.len() - i,
        {
            if self.sent[i] == r {
                return true;
            }
            i = i + 1;
        }
        false
    }

    /// Marks round `r` as originated by this node.
    pub fn sent_insert(&mut self, r: u64)
        ensures
            final(self)@ == (RbState { sent: old(self)@.sent.insert(r), ..old(self)@ }),
    {
        self.sent.push(r);
        proof {
            old(self).sent@.lemma_push_to_set_commute(r);
            assert(self.sent@.to_set() =~= old(self).sent@.to_set().insert(r));
        }
    }

    /// The value this node echoed for `(originator, round)`, if any.
    pub fn echoed_value(&self, originator: u64, round: u64) -> (res: Option<&Vec<u8>>)
        ensures
            match res {
                Some(v) => self@.echoed.contains_key((originator, round)) && v@
                    == self@.echoed[(originator, round)],
                None => !self@.echoed.contains_key((originator, round)),
            },
    {
        self.echoed.get(originator, round)
    }

    /// The value this node voted for at `(originator, round)`, if any.
    pub fn voted_value(&self, originator: u64, round: u64) -> (res: Option<&Vec<u8>>)
        ensures
            match res {
                Some(v) => self@.voted.contains_key((originator, round)) && v@
                    == self@.voted[(originator, round)],
                None => !self@.voted.contains_key((originator, round)),
            },
    {
        self.voted.get(originator, round)
    }

    /// Number of distinct peers whose echo for `(originator, round,
    /// value)` this node witnessed.
    pub fn echo_count(&self, originator: u64, round: u64, value: &Vec<u8>) -> (cnt: usize)
        ensures
            cnt as int == counts_at(self@.echo_counts, (originator, round, value@)).len(),
    {
        match self.echo_counts.get(originator, round, value) {
            Some(c) => c.len(),
            None => 0,
        }
    }

    /// Number of distinct peers whose vote for `(originator, round,
    /// value)` this node witnessed.
    pub fn vote_count(&self, originator: u64, round: u64, value: &Vec<u8>) -> (cnt: usize)
        ensures
            cnt as int == counts_at(self@.vote_counts, (originator, round, value@)).len(),
    {
        match self.vote_counts.get(originator, round, value) {
            Some(c) => c.len(),
            None => 0,
        }
    }

    /// The value delivered for `(originator, round)`, if consensus was
    /// reached on one.
    pub fn check_output(&self, originator: u64, round: u64) -> (res: Option<&Vec<u8>>)
        ensures
            match res {
                Some(v) => self@.delivered.contains_key((originator, round)) && v@
                    == self@.delivered[(originator, round)],
                None => !self@.delivered.contains_key((originator, round)),
            },
    {
        self.delivered.get(originator, round)
    }
}

/// Configuration of one reliable-broadcast instance: the fixed cluster.
/// The tolerated number of faults and all thresholds are derived from
/// the cluster size.
pub struct ReliableBroadcast {
    pub cluster: Vec<u64>,
}

/// Mathematical shape of a [`ReliableBroadcast`] configuration.
pub struct RbConfig {
    pub cluster: Seq<u64>,
}

impl View for ReliableBroadcast {
    type V = RbConfig;

    open spec fn view(&self) -> RbConfig {
        RbConfig { cluster: self.cluster@ }
    }
}

/// A usable configuration has at least one member.
pub open spec fn rb_config_wf(cfg: RbConfig) -> bool {
    cfg.cluster.len() >= 1
}

/// Number of tolerated faults: `(n - 1) / 3`.
pub open spec fn spec_f(cfg: RbConfig) -> int {
    (cfg.cluster.len() - 1) / 3
}

/// Echoes needed to vote: `n - f`.
pub open spec fn spec_t_echo(cfg: RbConfig) -> int {
    cfg.cluster.len() - spec_f(cfg)
}

/// Votes needed to vote oneself (amplification): `f + 1`.
pub open spec fn spec_t_amplify(cfg: RbConfig) -> int {
    spec_f(cfg) + 1
}

/// Votes needed to deliver: `2f + 1`.
pub open spec fn spec_t_deliver(cfg: RbConfig) -> int {
    2 * spec_f(cfg) + 1
}

/// One packet per cluster member, all carrying the same message.
pub open spec fn spec_broadcast(cluster: Seq<u64>, src: u64, m: MessageModel) -> Seq<PacketModel> {
    Seq::new(
        cluster.len(),
        |i: int| PacketModel { src, dst: cluster[i], msg: m, consumed: false },
    )
}

/// The witnesses recorded under a tally key, none so far meaning none.
pub open spec fn counts_at(counts: Map<(u64, u64, Seq<u8>), Seq<u64>>, key: (u64, u64, Seq<u8>))
    -> Seq<u64> {
    if counts.contains_key(key) {
        counts[key]
    } else {
        Seq::empty()
    }
}

/// Records `src` as a witness under `key`; a peer already recorded
/// changes nothing.
pub open spec fn spec_record(
    counts: Map<(u64, u64, Seq<u8>), Seq<u64>>,
    key: (u64, u64, Seq<u8>),
    src: u64,
) -> Map<(u64, u64, Seq<u8>), Seq<u64>> {
    let cur = counts_at(counts, key);
    if cur.contains(src) {
        counts
    } else {
        counts.insert(key, cur.push(src))
    }
}

/// Transition for an application proposal: the first proposal of a
/// round broadcasts `Initial` to the whole cluster (self included) and
/// records the round as sent; repeats do nothing.
pub open spec fn spec_propose(cfg: RbConfig, m: RbState, r: u64, v: Seq<u8>) -> (
    RbState,
    Seq<PacketModel>,
) {
    if m.sent.contains(r) {
        (m, Seq::empty())
    } else {
        let m2 = RbState { sent: m.sent.insert(r), ..m };
        (m2, spec_broadcast(cfg.cluster, m.address, MessageModel::Initial { round: r, value: v }))
    }
}

/// Transition for one incoming packet.
///
/// A packet not addressed to this node, or from a source outside the
/// cluster, or speaking about an originator outside the cluster, is
/// dropped.
///
/// `Initial`: the first initial from an originator for a round is
/// recorded and answered with an `Echo` broadcast; a repeat is dropped.
///
/// `Echo`: the source is recorded as an echo witness for the claimed
/// (originator, round, value); when the distinct witnesses reach
/// `n - f` and this node has not voted for that slot, it records its
/// vote and broadcasts `Vote`.
///
/// `Vote`: the source is recorded as a vote witness; `f + 1` witnesses
/// amplify into a vote of this node's own (unless it already voted);
/// `2f + 1` witnesses deliver the value for the slot (unless one was
/// already delivered), with no outbound packets.
pub open spec fn spec_on_packet(cfg: RbConfig, m: RbState, p: PacketModel) -> (
    RbState,
    Seq<PacketModel>,
) {
    if p.dst != m.address || !cfg.cluster.contains(p.src) {
        (m, Seq::empty())
    } else {
        match p.msg {
            MessageModel::Initial { round, value } => {
                if m.echoed.contains_key((p.src, round)) {
                    (m, Seq::empty())
                } else {
                    let m2 = RbState { echoed: m.echoed.insert((p.src, round), value), ..m };
                    let echo = MessageModel::Echo { originator: p.src, round, value };
                    (m2, spec_broadcast(cfg.cluster, m.address, echo))
                }
            }
            MessageModel::Echo { originator, round, value } => {
                if !cfg.cluster.contains(originator) {
                    (m, Seq::empty())
                } else {
                    let key = (originator, round, value);
                    let m2 = RbState {
                        echo_counts: spec_record(m.echo_counts, key, p.src),
                        ..m
                    };
                    let cnt = counts_at(m2.echo_counts, key).len();
                    if cnt >= spec_t_echo(cfg) && !m2.voted.contains_key((originator, round)) {
                        let m3 = RbState {
                            voted: m2.voted.insert((originator, round), value),
                            ..m2
                        };
                        let vote = MessageModel::Vote { originator, round, value };
                        (m3, spec_broadcast(cfg.cluster, m.address, vote))
                    } else {
                        (m2, Seq::empty())
                    }
                }
            }
            MessageModel::Vote { originator, round, value } => {
                if !cfg.cluster.contains(originator) {
                    (m, Seq::empty())
                } else {
                    let key = (originator, round, value);
                    let m2 = RbState {
                        vote_counts: spec_record(m.vote_counts, key, p.src),
                        ..m
                    };
                    let cnt = counts_at(m2.vote_counts, key).len();
                    let amplify = cnt >= spec_t_amplify(cfg) && !m2.voted.contains_key(
                        (originator, round),
                    );
                    let m3 = if amplify {
                        RbState { voted: m2.voted.insert((originator, round), value), ..m2 }
                    } else {
                        m2
                    };
                    let out = if amplify {
                        spec_broadcast(
                            cfg.cluster,
                            m.address,
                            MessageModel::Vote { originator, round, value },
                        )
                    } else {
                        Seq::empty()
                    };
                    let m4 = if cnt >= spec_t_deliver(cfg) && !m3.delivered.contains_key(
                        (originator, round),
                    ) {
                        RbState { delivered: m3.delivered.insert((originator, round), value), ..m3 }
                    } else {
                        m3
                    };
                    (m4, out)
                }
            }
        }
    }
}

/// A packet carrying `msg` from `src` to `dst`, not yet consumed.
pub fn make_packet(src: u64, dst: u64, msg: Message) -> (p: Packet)
    ensures
        p@ == (PacketModel { src, dst, msg: msg@, consumed: false }),
{
    Packet { src, dst, msg, consumed: false }
}

/// Whether `x` occurs in `v`.
pub fn vec_contains_u64(v: &Vec<u64>, x: u64) -> (res: bool)
    ensures
        res == v@.contains(x),
{
    let mut i: usize = 0;
    while i < v.len()
        invariant
            i <= v.len(),
            forall|j: int| 0 <= j < i ==> v@[j] != x,
        decreases v.len() - i,
    {
        if v[i] == x {
            return true;
        }
        i = i + 1;
    }
    false
}

impl ReliableBroadcast {
    /// Number of tolerated faults, `(n - 1) / 3`.
    pub fn num_faulty(&self) -> (f: usize)
        requires
            rb_config_wf(self@),
        ensures
            f as int == spec_f(self@),
    {
        (self.cluster.len() - 1) / 3
    }

    /// Echoes needed before this node votes, `n - f`.
    pub fn echo_threshold(&self) -> (t: usize)
        requires
            rb_config_wf(self@),
        ensures
            t as int == spec_t_echo(self@),
    {
        let n = self.cluster.len();
        let f = (n - 1) / 3;
        proof {
            vstd::arithmetic::div_mod::lemma_div_nonincreasing(n as int - 1, 3);
        }
        n - f
    }

    /// Votes needed before this node votes itself, `f + 1`.
    pub fn amplify_threshold(&self) -> (t: usize)
        requires
            rb_config_wf(self@),
        ensures
            t as int == spec_t_amplify(self@),
    {
        let n = self.cluster.len();
        let f = (n - 1) / 3;
        proof {
            vstd::arithmetic::div_mod::lemma_div_nonincreasing(n as int - 1, 3);
        }
        f + 1
    }

    /// Votes needed before this node delivers, `2f + 1`.
    pub fn deliver_threshold(&self) -> (t: usize)
        requires
            rb_config_wf(self@),
        ensures
            t as int == spec_t_deliver(self@),
    {
        let n = self.cluster.len();
        let f = (n - 1) / 3;
        proof {
            vstd::arithmetic::div_mod::lemma_fundamental_div_mod(n as int - 1, 3);
            assert(3 * f <= n - 1);
        }
        2 * f + 1
    }

    /// One packet per cluster member, all carrying `msg`.
    fn broadcast(&self, src: u64, msg: Message) -> (out: Vec<Packet>)
        ensures
            packet_views(out@) == spec_broadcast(self@.cluster, src, msg@),
    {
        let mut out: Vec<Packet> = Vec::new();
        let mut i: usize = 0;
        while i < self.cluster.len()
            invariant
                i <= self.cluster.len(),
                packet_views(out@) =~= spec_broadcast(self@.cluster.subrange(0, i as int), src, msg@),
            decreases self.cluster.len() - i,
        {
            let ghost prev = out@;
            out.push(make_packet(src, self.cluster[i], msg.clone()));
            i = i + 1;
            proof {
                let lhs = packet_views(out@);
                let rhs = spec_broadcast(self@.cluster.subrange(0, i as int), src, msg@);
                let prev_lhs = packet_views(prev);
                let prev_rhs = spec_broadcast(self@.cluster.subrange(0, i - 1), src, msg@);
                assert(prev_lhs.len() == prev.len());
                assert(prev.len() == i - 1);
                assert(out@.len() == i as int);
                assert forall|j: int| 0 <= j < i implies lhs[j] == rhs[j] by {
                    assert(lhs[j] == out@[j]@);
                    if j < i - 1 {
                        assert(out@[j] == prev[j]);
                        assert(prev_lhs[j] == prev[j]@);
                        assert(prev_lhs[j] == prev_rhs[j]);
                    }
                }
                assert(lhs =~= rhs);
            }
        }
        proof {
            assert(self@.cluster.subrange(0, self@.cluster.len() as int) =~= self@.cluster);
        }
        out
    }

    /// Offers `v` for broadcast at round `r` on this node; see
    /// [`spec_propose`].
    pub fn propose(&self, st: &mut NodeState, r: u64, v: Vec<u8>) -> (out: Vec<Packet>)
        ensures
            final(st)@ == spec_propose(self@, old(st)@, r, v@).0,
            packet_views(out@) == spec_propose(self@, old(st)@, r, v@).1,
    {
        if st.sent_contains(r) {
            let out: Vec<Packet> = Vec::new();
            proof {
                assert(packet_views(out@) =~= Seq::<PacketModel>::empty());
            }
            return out;
        }
        st.sent_insert(r);
        let addr = st.address;
        self.broadcast(addr, Message::Initial { round: r, value: v })
    }

    /// Handles one packet delivered to this node; see [`spec_on_packet`].
    pub fn on_packet(&self, st: &mut NodeState, p: &Packet) -> (out: Vec<Packet>)
        requires
            rb_config_wf(self@),
        ensures
            final(st)@ == spec_on_packet(self@, old(st)@, p@).0,
            packet_views(out@) == spec_on_packet(self@, old(st)@, p@).1,
    {
        let empty_out: Vec<Packet> = Vec::new();
        proof {
            assert(packet_views(empty_out@) =~= Seq::<PacketModel>::empty());
        }
        if p.dst != st.address {
            return empty_out;
        }
        if !vec_contains_u64(&self.cluster, p.src) {
            return empty_out;
        }
        match &p.msg {
            Message::Initial { round, value } => {
                let r = *round;
                if st.echoed.contains(p.src, r) {
                    return empty_out;
                }
                st.echoed.insert(p.src, r, copy_bytes(value));
                let addr = st.address;
                let echo = Message::Echo { originator: p.src, round: r, value: copy_bytes(value) };
                self.broadcast(addr, echo)
            }
            Message::Echo { originator, round, value } => {
                let o = *originator;
                let r = *round;
                if !vec_contains_u64(&self.cluster, o) {
                    return empty_out;
                }
                let cnt = self.record_witness(&mut st.echo_counts, o, r, value, p.src);
                if cnt >= self.echo_threshold() && !st.voted.contains(o, r) {
                    st.voted.insert(o, r, copy_bytes(value));
                    let addr = st.address;
                    let vote = Message::Vote { originator: o, round: r, value: copy_bytes(value) };
                    self.broadcast(addr, vote)
                } else {
                    empty_out
                }
            }
            Message::Vote { originator, round, value } => {
                let o = *originator;
                let r = *round;
                if !vec_contains_u64(&self.cluster, o) {
                    return empty_out;
                }
                let cnt = self.record_witness(&mut st.vote_counts, o, r, value, p.src);
                let out: Vec<Packet> = if cnt >= self.amplify_threshold() && !st.voted.contains(
                    o,
                    r,
                ) {
                    st.voted.insert(o, r, copy_bytes(value));
                    let addr = st.address;
                    let vote = Message::Vote { originator: o, round: r, value: copy_bytes(value) };
                    self.broadcast(addr, vote)
                } else {
                    empty_out
                };
                if cnt >= self.deliver_threshold() && !st.delivered.contains(o, r) {
                    st.delivered.insert(o, r, copy_bytes(value));
                }
                out
            }
        }
    }

    /// Records `src` as a witness under `(o, r, value)` and returns the
    /// number of distinct witnesses now recorded there.
    fn record_witness(
        &self,
        counts: &mut TallyTable<Vec<u64>>,
        o: u64,
        r: u64,
        value: &Vec<u8>,
        src: u64,
    ) -> (cnt: usize)
        ensures
            final(counts)@ == spec_record(old(counts)@, (o, r, value@), src),
            cnt as int == counts_at(final(counts)@, (o, r, value@)).len(),
    {
        let cur: Vec<u64> = match counts.get(o, r, value) {
            Some(c) => copy_vec(c),
            None => Vec::new(),
        };
        proof {
            assert(cur@ =~= counts_at(counts@, (o, r, value@)));
        }
        if vec_contains_u64(&cur, src) {
            return cur.len();
        }
        let mut cur2 = cur;
        cur2.push(src);
        let cnt = cur2.len();
        counts.insert(o, r, copy_bytes(value), cur2);
        cnt
    }
}

} // verus!
