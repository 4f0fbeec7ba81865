//! Protocol laws: the invariants the state machines maintain and the
//! guarantees that follow from them, each proved against the
//! specification-level transitions that the executable functions are
//! verified to implement.

use crate::pb::{spec_proc_int, spec_proc_msg, InternalEvent, PbConfig, PbState};
use crate::pb::{pb_config_wf, spec_threshold};
use crate::rb::{
    counts_at, rb_config_wf, spec_f, spec_on_packet, spec_propose, spec_record, spec_t_deliver,
    spec_t_echo, RbConfig, RbState,
};
use vstd::prelude::*;

verus! {

// ---------------------------------------------------------------------
// Provable broadcast: the counter/output coupling.
// ---------------------------------------------------------------------

/// Number of signature shares collected for round `r`.
pub open spec fn pb_count(m: PbState, r: u64) -> int {
    if m.counter.contains_key(r) {
        m.counter[r].len() as int
    } else {
        0
    }
}

/// Coupling of the sender-side counter and output: a round's output is
/// set exactly when its share count has reached the signature
/// threshold, and the count never exceeds the threshold.
pub open spec fn pb_counter_inv(cfg: PbConfig, m: PbState) -> bool {
    &&& forall|r: u64| #[trigger]
        m.counter.contains_key(r) ==> m.counter[r].len() <= spec_threshold(cfg) && (
        m.counter[r].len() == spec_threshold(cfg) <==> m.output.contains_key(r))
    &&& forall|r: u64| #[trigger] m.output.contains_key(r) ==> m.counter.contains_key(r)
}

/// A fresh node satisfies the counter/output coupling.
pub proof fn lemma_pb_inv_init(cfg: PbConfig, address: u64)
    requires
        pb_config_wf(cfg),
    ensures
        pb_counter_inv(cfg, crate::pb::spec_init_state(address)),
{
}

/// A send action preserves the counter/output coupling.
pub proof fn lemma_pb_inv_proc_int(
    cfg: PbConfig,
    store: Map<u64, Seq<u8>>,
    m: PbState,
    ev: InternalEvent,
)
    requires
        pb_config_wf(cfg),
        pb_counter_inv(cfg, m),
    ensures
        pb_counter_inv(cfg, spec_proc_int(cfg, store, m, ev).0),
{
}

/// An incoming message preserves the counter/output coupling.
pub proof fn lemma_pb_inv_proc_msg(
    cfg: PbConfig,
    store: Map<u64, Seq<u8>>,
    m: PbState,
    src: u64,
    msg: crate::pb::MessageModel,
)
    requires
        pb_config_wf(cfg),
        pb_counter_inv(cfg, m),
    ensures
        pb_counter_inv(cfg, spec_proc_msg(cfg, store, m, src, msg).0),
{
}

/// The provable-broadcast threshold law: in any reachable sender state,
/// a round's output is set if and only if the round has collected at
/// least the threshold of distinct signature shares.
pub proof fn lemma_pb_output_iff_threshold(cfg: PbConfig, m: PbState, r: u64)
    requires
        pb_config_wf(cfg),
        pb_counter_inv(cfg, m),
    ensures
        m.output.contains_key(r) <==> pb_count(m, r) >= spec_threshold(cfg),
{
}

// ---------------------------------------------------------------------
// Reliable broadcast: invariants of a node's state.
// ---------------------------------------------------------------------

/// A recorded witness list holds distinct cluster members only.
pub open spec fn witness_list_ok(cfg: RbConfig, s: Seq<u64>) -> bool {
    s.no_duplicates() && forall|i: int| 0 <= i < s.len() ==> cfg.cluster.contains(s[i])
}

/// Every witness list a node stores holds distinct cluster members.
pub open spec fn rb_member_inv(cfg: RbConfig, m: RbState) -> bool {
    &&& forall|k: (u64, u64, Seq<u8>)| #[trigger]
        m.echo_counts.contains_key(k) ==> witness_list_ok(cfg, m.echo_counts[k])
    &&& forall|k: (u64, u64, Seq<u8>)| #[trigger]
        m.vote_counts.contains_key(k) ==> witness_list_ok(cfg, m.vote_counts[k])
}

/// Every originator a node keeps a record about is a cluster member:
/// together with [`rb_member_inv`], every address in any stored map is
/// a member of the fixed cluster.
pub open spec fn rb_key_member_inv(cfg: RbConfig, m: RbState) -> bool {
    &&& forall|k: (u64, u64)| #[trigger] m.echoed.contains_key(k) ==> cfg.cluster.contains(k.0)
    &&& forall|k: (u64, u64)| #[trigger] m.voted.contains_key(k) ==> cfg.cluster.contains(k.0)
    &&& forall|k: (u64, u64)| #[trigger] m.delivered.contains_key(k) ==> cfg.cluster.contains(k.0)
    &&& forall|k: (u64, u64, Seq<u8>)| #[trigger]
        m.echo_counts.contains_key(k) ==> cfg.cluster.contains(k.0)
    &&& forall|k: (u64, u64, Seq<u8>)| #[trigger]
        m.vote_counts.contains_key(k) ==> cfg.cluster.contains(k.0)
}

/// A node delivers only with a vote quorum behind the delivered value:
/// whenever `delivered[(o, r)] = v`, at least `2f + 1` distinct vote
/// witnesses for `(o, r, v)` are on record.
pub open spec fn rb_delivery_inv(cfg: RbConfig, m: RbState) -> bool {
    forall|o: u64, r: u64| #[trigger]
        m.delivered.contains_key((o, r)) ==> counts_at(
            m.vote_counts,
            (o, r, m.delivered[(o, r)]),
        ).len() >= spec_t_deliver(cfg)
}

/// A node votes only with a quorum behind the vote: whenever
/// `voted[(o, r)] = v`, either an echo quorum of `n - f` or a vote
/// amplification quorum of `f + 1` for `(o, r, v)` is on record.
pub open spec fn rb_vote_justified_inv(cfg: RbConfig, m: RbState) -> bool {
    forall|o: u64, r: u64| #[trigger]
        m.voted.contains_key((o, r)) ==> counts_at(
            m.echo_counts,
            (o, r, m.voted[(o, r)]),
        ).len() >= spec_t_echo(cfg) || counts_at(
            m.vote_counts,
            (o, r, m.voted[(o, r)]),
        ).len() >= crate::rb::spec_t_amplify(cfg)
}

/// A fresh node satisfies every invariant.
pub proof fn lemma_rb_inv_init(cfg: RbConfig, address: u64)
    ensures
        rb_member_inv(cfg, crate::rb::spec_init_state(address)),
        rb_key_member_inv(cfg, crate::rb::spec_init_state(address)),
        rb_delivery_inv(cfg, crate::rb::spec_init_state(address)),
        rb_vote_justified_inv(cfg, crate::rb::spec_init_state(address)),
{
}

/// A proposal preserves every invariant: it touches neither the
/// witness lists nor the vote and delivery records.
pub proof fn lemma_rb_inv_propose(cfg: RbConfig, m: RbState, r: u64, v: Seq<u8>)
    requires
        rb_member_inv(cfg, m),
        rb_key_member_inv(cfg, m),
        rb_delivery_inv(cfg, m),
        rb_vote_justified_inv(cfg, m),
    ensures
        rb_member_inv(cfg, spec_propose(cfg, m, r, v).0),
        rb_key_member_inv(cfg, spec_propose(cfg, m, r, v).0),
        rb_delivery_inv(cfg, spec_propose(cfg, m, r, v).0),
        rb_vote_justified_inv(cfg, spec_propose(cfg, m, r, v).0),
{
}

/// Recording a fresh cluster member keeps a witness list distinct and
/// member-only, and never shortens any list.
proof fn lemma_record_ok(
    cfg: RbConfig,
    counts: Map<(u64, u64, Seq<u8>), Seq<u64>>,
    key: (u64, u64, Seq<u8>),
    src: u64,
)
    requires
        cfg.cluster.contains(src),
        forall|k: (u64, u64, Seq<u8>)| #[trigger]
            counts.contains_key(k) ==> witness_list_ok(cfg, counts[k]),
    ensures
        forall|k: (u64, u64, Seq<u8>)| #[trigger]
            spec_record(counts, key, src).contains_key(k) ==> witness_list_ok(
                cfg,
                spec_record(counts, key, src)[k],
            ),
        forall|k: (u64, u64, Seq<u8>)|
            counts_at(spec_record(counts, key, src), k).len() >= #[trigger] counts_at(
                counts,
                k,
            ).len(),
        counts_at(spec_record(counts, key, src), key).contains(src),
{
    let cur = counts_at(counts, key);
    let res = spec_record(counts, key, src);
    if cur.contains(src) {
    } else {
        let cur2 = cur.push(src);
        assert(cur2[cur.len() as int] == src);
        assert forall|i: int, j: int|
            0 <= i < j < cur2.len() implies cur2[i] != cur2[j] by {
            if j == cur.len() {
                assert(cur2[i] == cur[i]);
                if cur2[i] == src {
                    assert(cur.contains(src));
                }
            }
        }
        assert(cur2.no_duplicates());
        assert forall|i: int| 0 <= i < cur2.len() implies cfg.cluster.contains(cur2[i]) by {
            if i < cur.len() {
                assert(counts.contains_key(key) ==> witness_list_ok(cfg, counts[key]));
            }
        }
    }
}

/// Handling a packet preserves every invariant.
pub proof fn lemma_rb_inv_on_packet(cfg: RbConfig, m: RbState, p: crate::rb::PacketModel)
    requires
        rb_config_wf(cfg),
        rb_member_inv(cfg, m),
        rb_key_member_inv(cfg, m),
        rb_delivery_inv(cfg, m),
        rb_vote_justified_inv(cfg, m),
    ensures
        rb_member_inv(cfg, spec_on_packet(cfg, m, p).0),
        rb_key_member_inv(cfg, spec_on_packet(cfg, m, p).0),
        rb_delivery_inv(cfg, spec_on_packet(cfg, m, p).0),
        rb_vote_justified_inv(cfg, spec_on_packet(cfg, m, p).0),
{
    if p.dst != m.address || !cfg.cluster.contains(p.src) {
    } else {
        match p.msg {
            crate::rb::MessageModel::Initial { round, value } => {
            }
            crate::rb::MessageModel::Echo { originator, round, value } => {
                if cfg.cluster.contains(originator) {
                    lemma_record_ok(cfg, m.echo_counts, (originator, round, value), p.src);
                }
            }
            crate::rb::MessageModel::Vote { originator, round, value } => {
                if cfg.cluster.contains(originator) {
                    let key = (originator, round, value);
                    lemma_record_ok(cfg, m.vote_counts, key, p.src);
                    let m4 = spec_on_packet(cfg, m, p).0;
                    assert forall|o: u64, r: u64| #[trigger]
                        m4.delivered.contains_key((o, r)) implies counts_at(
                        m4.vote_counts,
                        (o, r, m4.delivered[(o, r)]),
                    ).len() >= spec_t_deliver(cfg) by {
                        if m.delivered.contains_key((o, r)) {
                            assert(counts_at(m.vote_counts, (o, r, m.delivered[(o, r)])).len()
                                >= spec_t_deliver(cfg));
                        }
                    }
                }
            }
        }
    }
}

// ---------------------------------------------------------------------
// Reliable broadcast: delivery guarantees.
// ---------------------------------------------------------------------

/// Integrity of delivery: handling a packet never changes or removes a
/// value already delivered — a node delivers at most one value per
/// (originator, round), irrevocably.
pub proof fn lemma_delivered_stable(cfg: RbConfig, m: RbState, p: crate::rb::PacketModel)
    ensures
        forall|k: (u64, u64)| #[trigger]
            m.delivered.contains_key(k) ==> spec_on_packet(cfg, m, p).0.delivered.contains_key(k)
                && spec_on_packet(cfg, m, p).0.delivered[k] == m.delivered[k],
{
}

/// A node's echo and vote records are equally stable: once it has
/// echoed or voted a value for `(o, r)`, no packet makes it echo or
/// vote another — each node backs at most one value per slot in each
/// phase.
pub proof fn lemma_records_stable(cfg: RbConfig, m: RbState, p: crate::rb::PacketModel)
    ensures
        forall|k: (u64, u64)| #[trigger]
            m.echoed.contains_key(k) ==> spec_on_packet(cfg, m, p).0.echoed.contains_key(k)
                && spec_on_packet(cfg, m, p).0.echoed[k] == m.echoed[k],
        forall|k: (u64, u64)| #[trigger]
            m.voted.contains_key(k) ==> spec_on_packet(cfg, m, p).0.voted.contains_key(k)
                && spec_on_packet(cfg, m, p).0.voted[k] == m.voted[k],
{
}

/// Witness lists never shrink: every recorded count survives the
/// handling of any packet.
pub proof fn lemma_counts_monotone(cfg: RbConfig, m: RbState, p: crate::rb::PacketModel)
    ensures
        forall|k: (u64, u64, Seq<u8>)|
            counts_at(spec_on_packet(cfg, m, p).0.echo_counts, k).len() >= #[trigger] counts_at(
                m.echo_counts,
                k,
            ).len(),
        forall|k: (u64, u64, Seq<u8>)|
            counts_at(spec_on_packet(cfg, m, p).0.vote_counts, k).len() >= #[trigger] counts_at(
                m.vote_counts,
                k,
            ).len(),
{
}

/// No spurious delivery: in any reachable state, a node has delivered
/// at `(o, r)` only if it has at least `2f + 1` distinct vote witnesses
/// for the delivered value on record.
pub proof fn lemma_no_spurious_delivery(cfg: RbConfig, m: RbState, o: u64, r: u64)
    requires
        rb_delivery_inv(cfg, m),
        m.delivered.contains_key((o, r)),
    ensures
        counts_at(m.vote_counts, (o, r, m.delivered[(o, r)])).len() >= spec_t_deliver(cfg),
{
}

/// Handling the same packet twice leaves the state where one handling
/// put it, and the repeat emits no packets.
pub proof fn lemma_on_packet_idempotent(cfg: RbConfig, m: RbState, p: crate::rb::PacketModel)
    ensures
        spec_on_packet(cfg, spec_on_packet(cfg, m, p).0, p).0 == spec_on_packet(cfg, m, p).0,
        spec_on_packet(cfg, spec_on_packet(cfg, m, p).0, p).1 == Seq::<
            crate::rb::PacketModel,
        >::empty(),
{
    let m1 = spec_on_packet(cfg, m, p).0;
    if p.dst != m.address || !cfg.cluster.contains(p.src) {
    } else {
        match p.msg {
            crate::rb::MessageModel::Initial { round, value } => {
            }
            crate::rb::MessageModel::Echo { originator, round, value } => {
                if cfg.cluster.contains(originator) {
                    let key = (originator, round, value);
                    lemma_record_contains(m.echo_counts, key, p.src);
                }
            }
            crate::rb::MessageModel::Vote { originator, round, value } => {
                if cfg.cluster.contains(originator) {
                    let key = (originator, round, value);
                    lemma_record_contains(m.vote_counts, key, p.src);
                }
            }
        }
    }
}

// ---------------------------------------------------------------------
// Counting lemmas.
// ---------------------------------------------------------------------

/// A disjoint union has the sum of the lengths.
proof fn lemma_len_disjoint_union(a: Set<u64>, d: Set<u64>)
    requires
        a.finite(),
        d.finite(),
        a.disjoint(d),
    ensures
        a.union(d).finite(),
        a.union(d).len() == a.len() + d.len(),
    decreases d.len(),
{
    if d.is_empty() {
        assert(a.union(d) =~= a);
    } else {
        let x = d.choose();
        assert(d.contains(x));
        lemma_len_disjoint_union(a, d.remove(x));
        assert(a.union(d.remove(x)) =~= a.union(d).remove(x));
        assert(a.union(d).contains(x));
    }
}

/// Two subsets of `u` overlap in at least `|a| + |b| - |u|` elements.
proof fn lemma_quorum_overlap(a: Set<u64>, b: Set<u64>, u: Set<u64>)
    requires
        u.finite(),
        a.subset_of(u),
        b.subset_of(u),
    ensures
        a.finite(),
        b.finite(),
        a.intersect(b).finite(),
        a.intersect(b).len() >= a.len() + b.len() - u.len(),
{
    vstd::set_lib::lemma_len_subset(a, u);
    vstd::set_lib::lemma_len_subset(b, u);
    let ab = a.intersect(b);
    let d = b.difference(a);
    vstd::set_lib::lemma_len_subset(ab, b);
    vstd::set_lib::lemma_len_subset(d, b);
    assert(ab.union(d) =~= b);
    lemma_len_disjoint_union(ab, d);
    assert(a.union(d) =~= a.union(b));
    lemma_len_disjoint_union(a, d);
    vstd::set_lib::lemma_len_subset(a.union(b), u);
}

/// A finite set larger than the faulty set holds a correct element.
proof fn lemma_pick_correct(a: Set<u64>, faulty: Set<u64>)
    requires
        a.finite(),
        faulty.finite(),
        a.len() > faulty.len(),
    ensures
        exists|x: u64| a.contains(x) && !faulty.contains(x),
{
    let af = a.intersect(faulty);
    let d = a.difference(faulty);
    assert(af.union(d) =~= a);
    vstd::set_lib::lemma_len_subset(af, faulty);
    vstd::set_lib::lemma_len_subset(af, a);
    vstd::set_lib::lemma_len_subset(d, a);
    lemma_len_disjoint_union(af, d);
    if forall|x: u64| !(#[trigger] d.contains(x)) {
        assert(d =~= Set::<u64>::empty());
    }
    let x = choose|x: u64| d.contains(x);
    assert(a.contains(x) && !faulty.contains(x));
}

/// A witness list of distinct cluster members, seen as a set: it has
/// the list's length and sits inside the cluster's member set.
proof fn lemma_witness_set(cfg: RbConfig, s: Seq<u64>)
    requires
        witness_list_ok(cfg, s),
    ensures
        s.to_set().finite(),
        s.to_set().len() == s.len(),
        s.to_set().subset_of(cfg.cluster.to_set()),
{
    vstd::seq_lib::seq_to_set_is_finite::<u64>(s);
    s.unique_seq_to_set();
    assert forall|x: u64| s.to_set().contains(x) implies cfg.cluster.to_set().contains(x) by {
        let i = choose|i: int| 0 <= i < s.len() && s[i] == x;
        assert(cfg.cluster.contains(s[i]));
    }
}

/// The cluster holds at least `3f + 1` members.
proof fn lemma_cluster_size(cfg: RbConfig)
    requires
        rb_config_wf(cfg),
    ensures
        cfg.cluster.len() >= 3 * spec_f(cfg) + 1,
        spec_f(cfg) >= 0,
{
    vstd::arithmetic::div_mod::lemma_fundamental_div_mod(cfg.cluster.len() as int - 1, 3);
}

// ---------------------------------------------------------------------
// Reliable broadcast: agreement across nodes.
// ---------------------------------------------------------------------

/// Agreement: if two nodes have both delivered for `(o, r)`, they
/// delivered the same value — provided at most `f` cluster members are
/// faulty and every vote recorded at either node from a correct member
/// is for the one value `w` that correct members vote at `(o, r)`.
/// (That correct members vote a single common value is what the echo
/// phase enforces; see [`lemma_echo_quorum_uniqueness`].)
pub proof fn lemma_agreement(
    cfg: RbConfig,
    mp: RbState,
    mq: RbState,
    o: u64,
    r: u64,
    faulty: Set<u64>,
    w: Seq<u8>,
)
    requires
        rb_config_wf(cfg),
        rb_member_inv(cfg, mp),
        rb_delivery_inv(cfg, mp),
        rb_member_inv(cfg, mq),
        rb_delivery_inv(cfg, mq),
        faulty.finite(),
        faulty.len() <= spec_f(cfg),
        forall|v: Seq<u8>, a: u64|
            #[trigger] counts_at(mp.vote_counts, (o, r, v)).contains(a) && !faulty.contains(a)
                ==> v == w,
        forall|v: Seq<u8>, a: u64|
            #[trigger] counts_at(mq.vote_counts, (o, r, v)).contains(a) && !faulty.contains(a)
                ==> v == w,
        mp.delivered.contains_key((o, r)),
        mq.delivered.contains_key((o, r)),
    ensures
        mp.delivered[(o, r)] == mq.delivered[(o, r)],
{
    lemma_cluster_size(cfg);
    let vp = mp.delivered[(o, r)];
    let sp = counts_at(mp.vote_counts, (o, r, vp));
    assert(sp.len() >= spec_t_deliver(cfg));
    assert(mp.vote_counts.contains_key((o, r, vp)));
    lemma_witness_set(cfg, sp);
    lemma_pick_correct(sp.to_set(), faulty);
    let a = choose|x: u64| sp.to_set().contains(x) && !faulty.contains(x);
    assert(sp.contains(a));
    assert(vp == w);

    let vq = mq.delivered[(o, r)];
    let sq = counts_at(mq.vote_counts, (o, r, vq));
    assert(sq.len() >= spec_t_deliver(cfg));
    assert(mq.vote_counts.contains_key((o, r, vq)));
    lemma_witness_set(cfg, sq);
    lemma_pick_correct(sq.to_set(), faulty);
    let b = choose|x: u64| sq.to_set().contains(x) && !faulty.contains(x);
    assert(sq.contains(b));
    assert(vq == w);
}

/// Echo-quorum uniqueness: no two values can both gather an echo quorum
/// of `n - f` distinct witnesses for the same `(o, r)` — even across
/// two different nodes' records — provided at most `f` members are
/// faulty, the cluster has no duplicate addresses, and every echo
/// recorded from a correct member `a` matches the one value `echoes[a]`
/// that `a` echoed for `(o, r)`. This is why a byzantine originator
/// that equivocates cannot drive two values to the vote stage.
pub proof fn lemma_echo_quorum_uniqueness(
    cfg: RbConfig,
    mp: RbState,
    mq: RbState,
    o: u64,
    r: u64,
    v1: Seq<u8>,
    v2: Seq<u8>,
    faulty: Set<u64>,
    echoes: Map<u64, Seq<u8>>,
)
    requires
        rb_config_wf(cfg),
        cfg.cluster.no_duplicates(),
        rb_member_inv(cfg, mp),
        rb_member_inv(cfg, mq),
        faulty.finite(),
        faulty.len() <= spec_f(cfg),
        forall|v: Seq<u8>, a: u64|
            #[trigger] counts_at(mp.echo_counts, (o, r, v)).contains(a) && !faulty.contains(a)
                ==> echoes.contains_key(a) && echoes[a] == v,
        forall|v: Seq<u8>, a: u64|
            #[trigger] counts_at(mq.echo_counts, (o, r, v)).contains(a) && !faulty.contains(a)
                ==> echoes.contains_key(a) && echoes[a] == v,
        counts_at(mp.echo_counts, (o, r, v1)).len() >= spec_t_echo(cfg),
        counts_at(mq.echo_counts, (o, r, v2)).len() >= spec_t_echo(cfg),
    ensures
        v1 == v2,
{
    lemma_cluster_size(cfg);
    let u = cfg.cluster.to_set();
    vstd::seq_lib::seq_to_set_is_finite::<u64>(cfg.cluster);
    cfg.cluster.unique_seq_to_set();

    let s1 = counts_at(mp.echo_counts, (o, r, v1));
    assert(mp.echo_counts.contains_key((o, r, v1)));
    lemma_witness_set(cfg, s1);
    let s2 = counts_at(mq.echo_counts, (o, r, v2));
    assert(mq.echo_counts.contains_key((o, r, v2)));
    lemma_witness_set(cfg, s2);

    let a = s1.to_set();
    let b = s2.to_set();
    lemma_quorum_overlap(a, b, u);
    assert(a.intersect(b).len() >= spec_f(cfg) + 1);
    lemma_pick_correct(a.intersect(b), faulty);
    let c = choose|x: u64| a.intersect(b).contains(x) && !faulty.contains(x);
    assert(s1.contains(c));
    assert(s2.contains(c));
    assert(echoes[c] == v1 && echoes[c] == v2);
}

/// After recording a witness it is on record, and recording it again
/// changes nothing.
proof fn lemma_record_contains(
    counts: Map<(u64, u64, Seq<u8>), Seq<u64>>,
    key: (u64, u64, Seq<u8>),
    src: u64,
)
    ensures
        counts_at(spec_record(counts, key, src), key).contains(src),
        counts_at(spec_record(counts, key, src), key).len() == counts_at(counts, key).len()
            || counts_at(spec_record(counts, key, src), key).len() == counts_at(counts, key).len()
            + 1,
        spec_record(spec_record(counts, key, src), key, src) == spec_record(counts, key, src),
{
    let cur = counts_at(counts, key);
    if cur.contains(src) {
    } else {
        assert(cur.push(src)[cur.len() as int] == src);
    }
}

} // verus!
