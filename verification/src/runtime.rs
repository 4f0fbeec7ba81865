//! The protocol runtime: owns one node's state, routes events to the
//! state machine, and keeps the local round counter.
//!
//! The runtime performs no retransmission and holds no transport
//! resources; it turns one application request or one inbound packet
//! into a batch of outbound packets. A packet whose destination equals
//! this node's own address must be fed back into [`Protocol::handle_packet`]
//! by the driver rather than sent out, so that a proposer's own echoes
//! and votes count towards its thresholds.

use crate::rb::{
    packet_views, rb_config_wf, spec_init_state, spec_on_packet, spec_propose, NodeState, Packet,
    PacketModel, RbState, ReliableBroadcast,
};
use crate::store::MessageStore;
use vstd::prelude::*;

verus! {

/// The one fatal error: a runtime may only be created for a node that
/// is a member of its own cluster. Everything recoverable surfaces as a
/// dropped packet, never as an error.
#[derive(Clone, Copy, PartialEq, Eq, Structural, Debug)]
pub enum ProtocolError {
    InvalidMembership,
}

/// A transport request wrapping one packet; acknowledged per packet.
pub struct RBRequest {
    pub packet: Packet,
}

/// The acknowledgement a node answers a packet with.
#[derive(Clone, Copy, PartialEq, Eq, Structural, Debug)]
pub enum RBResponse {
    Ack,
}

/// Mathematical shape of a [`Protocol`].
#[verifier::ext_equal]
pub struct ProtocolModel {
    pub cluster: Seq<u64>,
    pub state: RbState,
    pub round: u64,
    pub store: Map<u64, Seq<u8>>,
}

/// One node's runtime: the protocol configuration, the node state, the
/// next unused round, and the store of latest proposed values.
pub struct Protocol {
    pub rb: ReliableBroadcast,
    pub state: NodeState,
    pub round: u64,
    pub store: MessageStore,
}

impl View for Protocol {
    type V = ProtocolModel;

    open spec fn view(&self) -> ProtocolModel {
        ProtocolModel {
            cluster: self.rb@.cluster,
            state: self.state@,
            round: self.round,
            store: self.store@,
        }
    }
}

impl Protocol {
    /// The runtime is tied to a node that is a member of its cluster.
    pub open spec fn wf(&self) -> bool {
        rb_config_wf(self.rb@) && self@.cluster.contains(self@.state.address)
    }

    /// Creates the runtime for node `self_addr` in `cluster`. Fails with
    /// [`ProtocolError::InvalidMembership`] exactly when `self_addr` is
    /// not a member.
    pub fn create(cluster: Vec<u64>, self_addr: u64) -> (res: Result<Protocol, ProtocolError>)
        ensures
            match res {
                Ok(p) => cluster@.contains(self_addr) && p.wf() && p@ == (ProtocolModel {
                    cluster: cluster@,
                    state: spec_init_state(self_addr),
                    round: 0,
                    store: Map::empty(),
                }),
                Err(e) => !cluster@.contains(self_addr) && e == ProtocolError::InvalidMembership,
            },
    {
        if !crate::rb::vec_contains_u64(&cluster, self_addr) {
            return Err(ProtocolError::InvalidMembership);
        }
        Ok(
            Protocol {
                rb: ReliableBroadcast { cluster },
                state: NodeState::new(self_addr),
                round: 0,
                store: MessageStore::new(),
            },
        )
    }

    /// Offers `value` at the next unused round: records it as this
    /// node's latest proposal, broadcasts `Initial` for the current
    /// round, and advances the round counter.
    pub fn send_message(&mut self, value: Vec<u8>) -> (out: Vec<Packet>)
        requires
            old(self).wf(),
            old(self).round < u64::MAX,
        ensures
            final(self).wf(),
            final(self)@.cluster == old(self)@.cluster,
            final(self)@.round == old(self)@.round + 1,
            final(self)@.store == old(self)@.store.insert(
                old(self)@.state.address,
                value@,
            ),
            final(self)@.state == spec_propose(
                old(self).rb@,
                old(self)@.state,
                old(self)@.round,
                value@,
            ).0,
            packet_views(out@) == spec_propose(
                old(self).rb@,
                old(self)@.state,
                old(self)@.round,
                value@,
            ).1,
    {
        let addr = self.state.address;
        self.store.set_value(addr, crate::bytes::copy_bytes(&value));
        let out = self.rb.propose(&mut self.state, self.round, value);
        self.round = self.round + 1;
        out
    }

    /// Hands one inbound packet to the state machine, marking it
    /// consumed first, and returns the produced packets.
    pub fn handle_packet(&mut self, packet: Packet) -> (out: Vec<Packet>)
        requires
            old(self).wf(),
        ensures
            final(self).wf(),
            final(self)@.cluster == old(self)@.cluster,
            final(self)@.round == old(self)@.round,
            final(self)@.store == old(self)@.store,
            final(self)@.state == spec_on_packet(
                old(self).rb@,
                old(self)@.state,
                PacketModel { consumed: true, ..packet@ },
            ).0,
            packet_views(out@) == spec_on_packet(
                old(self).rb@,
                old(self)@.state,
                PacketModel { consumed: true, ..packet@ },
            ).1,
    {
        let mut p = packet;
        p.consumed = true;
        self.rb.on_packet(&mut self.state, &p)
    }

    /// The value delivered for `(originator, round)`, if consensus was
    /// reached on one.
    pub fn check_output(&self, originator: u64, round: u64) -> (res: Option<&Vec<u8>>)
        ensures
            match res {
                Some(v) => self@.state.delivered.contains_key((originator, round)) && v@
                    == self@.state.delivered[(originator, round)],
                None => !self@.state.delivered.contains_key((originator, round)),
            },
    {
        self.state.check_output(originator, round)
    }
}

} // verus!
