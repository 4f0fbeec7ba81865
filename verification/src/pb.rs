//! The provable-broadcast primitive.
//!
//! A single sender opens a round by broadcasting an `Init` message with a
//! value and a proof of authorship. Every other node validates the proof
//! and answers once with an `Echo` carrying its partial signature over
//! the round. The sender collects partial signatures from distinct
//! peers; the moment their number reaches the signature threshold
//! `|cluster| - f`, it combines them into one signature, the round's
//! output.
//!
//! Both transition functions are pure state machines: they take the
//! current node state and one input (an internal send action or an
//! incoming message) and return the outbound packets, mutating the state
//! exactly as the corresponding specification-level transition says.

use crate::bytes::copy_bytes;
use crate::crypto::{
    combine_partial_signatures, externally_validate, partially_sign, partially_validate,
    spec_combined_of, spec_externally_validate, spec_partial_sig_of, spec_partially_validate,
    spec_value_of, value_bft, CombinedSignature, CombinedSignatureModel, PartialSignature, Proof,
    SigShare,
};
use crate::store::MessageStore;
use crate::table::{copy_vec, KeyTable, SlotTable};
use vstd::prelude::*;

verus! {

/// An event the application raises on its own node.
#[derive(Clone, Copy)]
pub enum InternalEvent {
    SendAction { round: u64 },
}

/// A message of the provable-broadcast primitive.
pub enum Message {
    Init { round: u64, value: Vec<u8>, proof: Proof },
    Echo { round: u64, partial_signature: PartialSignature },
}

/// Mathematical shape of a [`Message`].
pub enum MessageModel {
    Init { round: u64, value: Seq<u8>, proof: Proof },
    Echo { round: u64, partial_signature: PartialSignature },
}

impl View for Message {
    type V = MessageModel;

    open spec fn view(&self) -> MessageModel {
        match self {
            Message::Init { round, value, proof } => MessageModel::Init {
                round: *round,
                value: value@,
                proof: *proof,
            },
            Message::Echo { round, partial_signature } => MessageModel::Echo {
                round: *round,
                partial_signature: *partial_signature,
            },
        }
    }
}

impl Clone for Message {
    fn clone(&self) -> (res: Message)
        ensures
            res@ == self@,
    {
        match self {
            Message::Init { round, value, proof } => Message::Init {
                round: *round,
                value: copy_bytes(value),
                proof: *proof,
            },
            Message::Echo { round, partial_signature } => Message::Echo {
                round: *round,
                partial_signature: *partial_signature,
            },
        }
    }
}

/// One addressed transmission of a [`Message`].
pub struct Packet {
    pub src: u64,
    pub dst: u64,
    pub msg: Message,
    pub received: bool,
}

/// Mathematical shape of a [`Packet`].
#[verifier::ext_equal]
pub struct PacketModel {
    pub src: u64,
    pub dst: u64,
    pub msg: MessageModel,
    pub received: bool,
}

impl View for Packet {
    type V = PacketModel;

    open spec fn view(&self) -> PacketModel {
        PacketModel { src: self.src, dst: self.dst, msg: self.msg@, received: self.received }
    }
}

/// A stored value and the proof it arrived with.
pub struct ValueProof {
    pub value: Vec<u8>,
    pub proof: Proof,
}

/// Mathematical shape of a [`ValueProof`].
pub struct ValueProofModel {
    pub value: Seq<u8>,
    pub proof: Proof,
}

impl View for ValueProof {
    type V = ValueProofModel;

    open spec fn view(&self) -> ValueProofModel {
        ValueProofModel { value: self.value@, proof: self.proof }
    }
}

/// Per-node state of the provable-broadcast primitive.
pub struct NodeState {
    pub address: u64,
    /// Rounds this node itself opened as the sender.
    pub sent: Vec<u64>,
    /// Sender side: per round, the signature shares collected so far.
    pub counter: KeyTable<Vec<SigShare>>,
    /// Sender side: per round, the combined signature once the threshold
    /// was reached.
    pub output: KeyTable<CombinedSignature>,
    /// Receiver side: per (sender, round), the value and proof this node
    /// has already echoed.
    pub echoed: SlotTable<ValueProof>,
}

/// Mathematical shape of a [`NodeState`].
#[verifier::ext_equal]
pub struct PbState {
    pub address: u64,
    pub sent: Set<u64>,
    pub counter: Map<u64, Seq<SigShare>>,
    pub output: Map<u64, CombinedSignatureModel>,
    pub echoed: Map<(u64, u64), ValueProofModel>,
}

impl View for NodeState {
    type V = PbState;

    open spec fn view(&self) -> PbState {
        PbState {
            address: self.address,
            sent: self.sent@.to_set(),
            counter: self.counter@,
            output: self.output@,
            echoed: self.echoed@,
        }
    }
}

/// The state of a node that has neither sent nor echoed anything.
pub open spec fn spec_init_state(address: u64) -> PbState {
    PbState {
        address,
        sent: Set::empty(),
        counter: Map::empty(),
        output: Map::empty(),
        echoed: Map::empty(),
    }
}

impl NodeState {
    /// A fresh node state for `address`.
    pub fn new(address: u64) -> (s: Self)
        ensures
            s@ == spec_init_state(address),
    {
        let s = NodeState {
            address,
            sent: Vec::new(),
            counter: KeyTable::new(),
            output: KeyTable::new(),
            echoed: SlotTable::new(),
        };
        proof {
            assert(s.sent@.to_set() =~= Set::<u64>::empty());
        }
        s
    }

    /// Whether this node opened round `r` itself.
    pub fn sent_contains(&self, r: u64) -> (res: bool)
        ensures
            res == self@.sent.contains(r),
    {
        let mut i: usize = 0;
        while i < self.sent.len()
            invariant
                i <= self.sent.len(),
                forall|j: int| 0 <= j < i ==> self.sent@[j] != r,
            decreases self.sent.len() - i,
        {
            if self.sent[i] == r {
                return true;
            }
            i = i + 1;
        }
        false
    }

    /// The signature shares collected for round `r`, if any.
    pub fn counter_get(&self, r: u64) -> (res: Option<&Vec<SigShare>>)
        ensures
            match res {
                Some(v) => self@.counter.contains_key(r) && v@ == self@.counter[r],
                None => !self@.counter.contains_key(r),
            },
    {
        self.counter.get(r)
    }

    /// Number of signature shares collected for round `r`.
    pub fn counter_len(&self, r: u64) -> (cnt: usize)
        ensures
            cnt as int == if self@.counter.contains_key(r) {
                self@.counter[r].len() as int
            } else {
                0
            },
    {
        match self.counter.get(r) {
            Some(v) => v.len(),
            None => 0,
        }
    }

    /// The combined signature for round `r`, once the threshold was
    /// reached.
    pub fn output_get(&self, r: u64) -> (res: Option<&CombinedSignature>)
        ensures
            match res {
                Some(v) => self@.output.contains_key(r) && v@ == self@.output[r],
                None => !self@.output.contains_key(r),
            },
    {
        self.output.get(r)
    }

    /// Marks round `r` as opened by this node.
    pub fn sent_insert(&mut self, r: u64)
        ensures
            final(self)@ == (PbState { sent: old(self)@.sent.insert(r), ..old(self)@ }),
    {
        self.sent.push(r);
        proof {
            old(self).sent@.lemma_push_to_set_commute(r);
            assert(self.sent@.to_set() =~= old(self).sent@.to_set().insert(r));
        }
    }
}

/// Configuration of one provable-broadcast instance: the fixed cluster
/// and the number of faults to tolerate.
pub struct ProvableBroadcast {
    pub node_addresses: Vec<u64>,
    pub num_byzantine: usize,
}

/// Mathematical shape of a [`ProvableBroadcast`] configuration.
pub struct PbConfig {
    pub node_addresses: Seq<u64>,
    pub num_byzantine: int,
}

impl View for ProvableBroadcast {
    type V = PbConfig;

    open spec fn view(&self) -> PbConfig {
        PbConfig { node_addresses: self.node_addresses@, num_byzantine: self.num_byzantine as int }
    }
}

/// A usable configuration tolerates fewer faults than it has members, so
/// that the signature threshold is at least one.
pub open spec fn pb_config_wf(cfg: PbConfig) -> bool {
    0 <= cfg.num_byzantine < cfg.node_addresses.len()
}

/// Number of distinct signature shares needed to combine.
pub open spec fn spec_threshold(cfg: PbConfig) -> int {
    cfg.node_addresses.len() - cfg.num_byzantine
}

/// The views of a vector of packets.
pub open spec fn packet_views(s: Seq<Packet>) -> Seq<PacketModel> {
    s.map_values(|p: Packet| p@)
}

/// One packet per cluster member, all carrying the same message.
pub open spec fn spec_broadcast(cluster: Seq<u64>, src: u64, m: MessageModel) -> Seq<PacketModel> {
    Seq::new(
        cluster.len(),
        |i: int| PacketModel { src, dst: cluster[i], msg: m, received: false },
    )
}

/// Whether `src` already contributed a share.
pub open spec fn has_share(shares: Seq<SigShare>, src: u64) -> bool {
    exists|i: int| 0 <= i < shares.len() && shares[i].addr == src
}

/// Transition for an application send action: the first request to open
/// a round broadcasts `Init` to the whole cluster (self included) and
/// records the round as sent; repeats do nothing.
pub open spec fn spec_proc_int(
    cfg: PbConfig,
    store: Map<u64, Seq<u8>>,
    m: PbState,
    ev: InternalEvent,
) -> (PbState, Seq<PacketModel>) {
    match ev {
        InternalEvent::SendAction { round } => {
            if m.sent.contains(round) {
                (m, Seq::empty())
            } else {
                let value = spec_value_of(store, m.address);
                let msg = MessageModel::Init {
                    round,
                    value,
                    proof: crate::crypto::spec_proof_of(m.address, round),
                };
                let m2 = PbState {
                    address: m.address,
                    sent: m.sent.insert(round),
                    counter: m.counter,
                    output: m.output,
                    echoed: m.echoed,
                };
                (m2, spec_broadcast(cfg.node_addresses, m.address, msg))
            }
        }
    }
}

/// Transition for an incoming message.
///
/// `Init`: a node that is not the round's sender and has not echoed yet
/// validates the proof, records the echo and answers the sender with its
/// partial signature.
///
/// `Echo`: the round's sender validates the share, records it unless the
/// source already contributed, and combines the shares into the round's
/// output exactly when their number reaches the threshold.
pub open spec fn spec_proc_msg(
    cfg: PbConfig,
    store: Map<u64, Seq<u8>>,
    m: PbState,
    src: u64,
    msg: MessageModel,
) -> (PbState, Seq<PacketModel>) {
    match msg {
        MessageModel::Init { round, value, proof } => {
            if m.sent.contains(round) || m.echoed.contains_key((m.address, round)) {
                (m, Seq::empty())
            } else if !spec_externally_validate(round, value, proof) {
                (m, Seq::empty())
            } else {
                let ps = spec_partial_sig_of(m.address, round);
                let m2 = PbState {
                    address: m.address,
                    sent: m.sent,
                    counter: m.counter,
                    output: m.output,
                    echoed: m.echoed.insert((src, round), ValueProofModel { value, proof }),
                };
                let pkt = PacketModel {
                    src: m.address,
                    dst: src,
                    msg: MessageModel::Echo { round, partial_signature: ps },
                    received: false,
                };
                (m2, seq![pkt])
            }
        }
        MessageModel::Echo { round, partial_signature } => {
            if !m.sent.contains(round) || m.output.contains_key(round) {
                (m, Seq::empty())
            } else if !spec_partially_validate(
                src,
                round,
                spec_value_of(store, m.address),
                partial_signature,
            ) {
                (m, Seq::empty())
            } else {
                let shares = if m.counter.contains_key(round) {
                    m.counter[round]
                } else {
                    Seq::empty()
                };
                if has_share(shares, src) {
                    (m, Seq::empty())
                } else {
                    let shares2 = shares.push(SigShare { addr: src, sig: partial_signature });
                    let m2 = PbState {
                        address: m.address,
                        sent: m.sent,
                        counter: m.counter.insert(round, shares2),
                        output: m.output,
                        echoed: m.echoed,
                    };
                    if shares2.len() == spec_threshold(cfg) {
                        let m3 = PbState {
                            address: m2.address,
                            sent: m2.sent,
                            counter: m2.counter,
                            output: m2.output.insert(round, spec_combined_of(round, shares2)),
                            echoed: m2.echoed,
                        };
                        (m3, Seq::empty())
                    } else {
                        (m2, Seq::empty())
                    }
                }
            }
        }
    }
}

/// A packet carrying `msg` from `src` to `dst`, not yet received.
pub fn make_packet(src: u64, dst: u64, msg: Message) -> (p: Packet)
    ensures
        p@ == (PacketModel { src, dst, msg: msg@, received: false }),
{
    Packet { src, dst, msg, received: false }
}

fn has_share_exec(shares: &Vec<SigShare>, src: u64) -> (res: bool)
    ensures
        res == has_share(shares@, src),
{
    let mut i: usize = 0;
    while i < shares.len()
        invariant
            i <= shares.len(),
            forall|j: int| 0 <= j < i ==> shares@[j].addr != src,
        decreases shares.len() - i,
    {
        if shares[i].addr == src {
            return true;
        }
        i = i + 1;
    }
    false
}

impl ProvableBroadcast {
    /// Number of distinct signature shares needed to combine: cluster
    /// size minus tolerated faults.
    pub fn signature_threshold(&self) -> (res: usize)
        requires
            pb_config_wf(self@),
        ensures
            res as int == spec_threshold(self@),
    {
        self.node_addresses.len() - self.num_byzantine
    }

    /// One packet per cluster member, all carrying `msg`.
    fn broadcast(&self, src: u64, msg: Message) -> (out: Vec<Packet>)
        ensures
            packet_views(out@) == spec_broadcast(self@.node_addresses, src, msg@),
    {
        let mut out: Vec<Packet> = Vec::new();
        let mut i: usize = 0;
        while i < self.node_addresses.len()
            invariant
                i <= self.node_addresses.len(),
                packet_views(out@) =~= spec_broadcast(
                    self@.node_addresses.subrange(0, i as int),
                    src,
                    msg@,
                ),
            decreases self.node_addresses.len() - i,
        {
            let ghost prev = out@;
            out.push(make_packet(src, self.node_addresses[i], msg.clone()));
            i = i + 1;
            proof {
                let lhs = packet_views(out@);
                let rhs = spec_broadcast(self@.node_addresses.subrange(0, i as int), src, msg@);
                let prev_lhs = packet_views(prev);
                let prev_rhs = spec_broadcast(
                    self@.node_addresses.subrange(0, i - 1),
                    src,
                    msg@,
                );
                assert(prev_lhs.len() == prev.len());
                assert(prev.len() == i - 1);
                assert(out@.len() == i as int);
                assert forall|j: int| 0 <= j < i implies lhs[j] == rhs[j] by {
                    assert(lhs[j] == out@[j]@);
                    if j < i - 1 {
                        assert(out@[j] == prev[j]);
                        assert(prev_lhs[j] == prev[j]@);
                        assert(prev_lhs[j] == prev_rhs[j]);
                    }
                }
                assert(lhs =~= rhs);
            }
        }
        proof {
            assert(self@.node_addresses.subrange(0, self@.node_addresses.len() as int)
                =~= self@.node_addresses);
        }
        out
    }

    /// Handles an application event on this node; see [`spec_proc_int`].
    pub fn proc_int(
        &self,
        store: &MessageStore,
        st: &mut NodeState,
        internal_event: InternalEvent,
    ) -> (out: Vec<Packet>)
        ensures
            final(st)@ == spec_proc_int(self@, store@, old(st)@, internal_event).0,
            packet_views(out@) == spec_proc_int(
                self@,
                store@,
                old(st)@,
                internal_event,
            ).1,
    {
        match internal_event {
            InternalEvent::SendAction { round } => {
                if st.sent_contains(round) {
                    let out: Vec<Packet> = Vec::new();
                    proof {
                        assert(packet_views(out@) =~= Seq::<PacketModel>::empty());
                    }
                    return out;
                }
                st.sent_insert(round);
                let id = st.address;
                let (value, proof) = value_bft(store, id, round);
                let init_msg = Message::Init { round, value, proof };
                self.broadcast(id, init_msg)
            }
        }
    }

    /// Handles a message delivered to this node; see [`spec_proc_msg`].
    pub fn proc_msg(
        &self,
        store: &MessageStore,
        st: &mut NodeState,
        src: u64,
        msg: Message,
    ) -> (out: Vec<Packet>)
        requires
            pb_config_wf(self@),
        ensures
            final(st)@ == spec_proc_msg(self@, store@, old(st)@, src, msg@).0,
            packet_views(out@) == spec_proc_msg(self@, store@, old(st)@, src, msg@).1,
    {
        let empty_out: Vec<Packet> = Vec::new();
        proof {
            assert(packet_views(empty_out@) =~= Seq::<PacketModel>::empty());
        }
        match msg {
            Message::Init { round, value, proof } => {
                if st.sent_contains(round) {
                    return empty_out;
                }
                if st.echoed.contains(st.address, round) {
                    return empty_out;
                }
                if !externally_validate(round, &value, &proof) {
                    return empty_out;
                }
                let id = st.address;
                let ps = partially_sign(id, round, &value);
                st.echoed.insert(src, round, ValueProof { value, proof });
                let pkt = make_packet(id, src, Message::Echo { round, partial_signature: ps });
                let mut out: Vec<Packet> = Vec::new();
                out.push(pkt);
                proof {
                    assert(packet_views(out@) =~= seq![pkt@]);
                }
                out
            }
            Message::Echo { round, partial_signature } => {
                if !st.sent_contains(round) {
                    return empty_out;
                }
                if st.output.contains(round) {
                    return empty_out;
                }
                let (value, _) = value_bft(store, st.address, round);
                if !partially_validate(src, round, &value, &partial_signature) {
                    return empty_out;
                }
                let shares_new: Vec<SigShare> = match st.counter.get(round) {
                    Some(shares) => {
                        if has_share_exec(shares, src) {
                            return empty_out;
                        }
                        let mut s2 = copy_vec(shares);
                        s2.push(SigShare { addr: src, sig: partial_signature });
                        s2
                    }
                    None => {
                        let mut s2: Vec<SigShare> = Vec::new();
                        s2.push(SigShare { addr: src, sig: partial_signature });
                        s2
                    }
                };
                if shares_new.len() == self.signature_threshold() {
                    let cs = combine_partial_signatures(round, &shares_new);
                    st.output.insert(round, cs);
                }
                st.counter.insert(round, shares_new);
                empty_out
            }
        }
    }
}

} // verus!
