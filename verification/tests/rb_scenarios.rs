use reliable_broadcast::rb::{Message, Packet};
use reliable_broadcast::runtime::Protocol;

fn build_cluster(cluster: &[u64]) -> Vec<Protocol> {
    cluster
        .iter()
        .map(|a| Protocol::create(cluster.to_vec(), *a).unwrap())
        .collect()
}

/// Routes every queued packet to its destination node until no packets
/// remain, feeding self-addressed packets back in like the runtime
/// driver must. Packets addressed to a crashed node are dropped.
fn route(nodes: &mut Vec<Protocol>, mut queue: Vec<Packet>, crashed: &[u64]) {
    while let Some(p) = queue.pop() {
        if crashed.contains(&p.dst) {
            continue;
        }
        let idx = nodes
            .iter()
            .position(|n| n.state.address == p.dst)
            .expect("packet addressed outside the cluster");
        let out = nodes[idx].handle_packet(p);
        for q in out {
            queue.push(q);
        }
    }
}

fn initial(src: u64, dst: u64, round: u64, value: &[u8]) -> Packet {
    Packet { src, dst, msg: Message::Initial { round, value: value.to_vec() }, consumed: false }
}

fn vote(src: u64, dst: u64, originator: u64, round: u64, value: &[u8]) -> Packet {
    Packet {
        src,
        dst,
        msg: Message::Vote { originator, round, value: value.to_vec() },
        consumed: false,
    }
}

fn echo(src: u64, dst: u64, originator: u64, round: u64, value: &[u8]) -> Packet {
    Packet {
        src,
        dst,
        msg: Message::Echo { originator, round, value: value.to_vec() },
        consumed: false,
    }
}

#[test]
fn cluster_four_honest_proposer_delivers() {
    let cluster = [1u64, 2, 3, 4];
    let mut nodes = build_cluster(&cluster);
    let out = nodes[0].send_message(b"hello".to_vec());
    assert_eq!(out.len(), 4);
    route(&mut nodes, out, &[]);
    for n in &nodes {
        assert_eq!(n.check_output(1, 0).cloned(), Some(b"hello".to_vec()));
    }
}

#[test]
fn agreement_on_concrete_schedule() {
    let cluster = [1u64, 2, 3, 4];
    let mut nodes = build_cluster(&cluster);
    let out = nodes[1].send_message(b"pact".to_vec());
    route(&mut nodes, out, &[]);
    let first = nodes[0].check_output(2, 0).cloned();
    assert!(first.is_some());
    for n in &nodes {
        assert_eq!(n.check_output(2, 0).cloned(), first);
    }
}

#[test]
fn duplicate_initial_echoes_once() {
    let cluster = [1u64, 2, 3, 4];
    let mut b = Protocol::create(cluster.to_vec(), 2).unwrap();
    let out1 = b.handle_packet(initial(1, 2, 0, b"x"));
    assert_eq!(out1.len(), 4);
    for p in &out1 {
        assert_eq!(p.src, 2);
        match &p.msg {
            Message::Echo { originator, round, value } => {
                assert_eq!(*originator, 1);
                assert_eq!(*round, 0);
                assert_eq!(value, &b"x".to_vec());
            }
            _ => panic!("expected an echo"),
        }
    }
    let out2 = b.handle_packet(initial(1, 2, 0, b"x"));
    assert_eq!(out2.len(), 0);
    assert_eq!(b.state.echoed_value(1, 0).cloned(), Some(b"x".to_vec()));
}

#[test]
fn byzantine_equivocation_no_delivery() {
    let cluster = [1u64, 2, 3, 4];
    let mut nodes = build_cluster(&cluster);
    // Node 1 is faulty: it sends Initial{0, "x"} to one half of the
    // cluster and Initial{0, "y"} to the other, then stays silent.
    let queue = vec![
        initial(1, 2, 0, b"x"),
        initial(1, 3, 0, b"y"),
        initial(1, 4, 0, b"y"),
    ];
    route(&mut nodes, queue, &[1]);
    for n in &nodes {
        if n.state.address == 1 {
            continue;
        }
        assert_eq!(n.check_output(1, 0), None);
        assert_eq!(n.state.voted_value(1, 0), None);
        // neither value gathered an echo quorum of n - f = 3
        assert!(n.state.echo_count(1, 0, &b"x".to_vec()) < 3);
        assert!(n.state.echo_count(1, 0, &b"y".to_vec()) < 3);
    }
}

#[test]
fn late_vote_after_delivery_is_inert() {
    let cluster = [1u64, 2, 3, 4];
    let mut c = Protocol::create(cluster.to_vec(), 3).unwrap();
    // one vote: below every threshold, nothing delivered, nothing sent
    let out1 = c.handle_packet(vote(1, 3, 1, 0, b"x"));
    assert_eq!(out1.len(), 0);
    assert_eq!(c.check_output(1, 0), None);
    // second vote reaches f + 1 = 2: C amplifies with a vote of its own
    let out2 = c.handle_packet(vote(2, 3, 1, 0, b"x"));
    assert_eq!(out2.len(), 4);
    assert_eq!(c.check_output(1, 0), None);
    // third distinct vote reaches 2f + 1 = 3: C delivers
    let out3 = c.handle_packet(vote(4, 3, 1, 0, b"x"));
    assert_eq!(out3.len(), 0);
    assert_eq!(c.check_output(1, 0).cloned(), Some(b"x".to_vec()));
    // a further (duplicate) vote changes nothing and emits nothing
    let out4 = c.handle_packet(vote(2, 3, 1, 0, b"x"));
    assert_eq!(out4.len(), 0);
    assert_eq!(c.check_output(1, 0).cloned(), Some(b"x".to_vec()));
    assert_eq!(c.state.vote_count(1, 0, &b"x".to_vec()), 3);
    // a fresh vote witness is recorded but delivery is already settled
    let out5 = c.handle_packet(vote(3, 3, 1, 0, b"x"));
    assert_eq!(out5.len(), 0);
    assert_eq!(c.check_output(1, 0).cloned(), Some(b"x".to_vec()));
    assert_eq!(c.state.vote_count(1, 0, &b"x".to_vec()), 4);
}

#[test]
fn delivery_is_irrevocable_under_conflicting_votes() {
    let cluster = [1u64, 2, 3, 4];
    let mut c = Protocol::create(cluster.to_vec(), 3).unwrap();
    for src in [1u64, 2, 4] {
        c.handle_packet(vote(src, 3, 1, 0, b"x"));
    }
    assert_eq!(c.check_output(1, 0).cloned(), Some(b"x".to_vec()));
    // a full quorum for a conflicting value cannot displace it
    for src in [1u64, 2, 4] {
        c.handle_packet(vote(src, 3, 1, 0, b"z"));
    }
    assert_eq!(c.state.vote_count(1, 0, &b"z".to_vec()), 3);
    assert_eq!(c.check_output(1, 0).cloned(), Some(b"x".to_vec()));
}

#[test]
fn repeated_echo_packet_leaves_state_unchanged() {
    let cluster = [1u64, 2, 3, 4];
    let mut b = Protocol::create(cluster.to_vec(), 2).unwrap();
    let out1 = b.handle_packet(echo(3, 2, 1, 0, b"x"));
    assert_eq!(out1.len(), 0);
    assert_eq!(b.state.echo_count(1, 0, &b"x".to_vec()), 1);
    let out2 = b.handle_packet(echo(3, 2, 1, 0, b"x"));
    assert_eq!(out2.len(), 0);
    assert_eq!(b.state.echo_count(1, 0, &b"x".to_vec()), 1);
    assert_eq!(b.state.voted_value(1, 0), None);
}

#[test]
fn echo_quorum_triggers_single_vote() {
    let cluster = [1u64, 2, 3, 4];
    let mut b = Protocol::create(cluster.to_vec(), 2).unwrap();
    // echoes from 1 and 3: below n - f = 3
    assert_eq!(b.handle_packet(echo(1, 2, 1, 0, b"x")).len(), 0);
    assert_eq!(b.handle_packet(echo(3, 2, 1, 0, b"x")).len(), 0);
    assert_eq!(b.state.voted_value(1, 0), None);
    // the third distinct echo reaches the quorum: B votes
    let out = b.handle_packet(echo(4, 2, 1, 0, b"x"));
    assert_eq!(out.len(), 4);
    assert_eq!(b.state.voted_value(1, 0).cloned(), Some(b"x".to_vec()));
    // further echoes are recorded but cause no second vote
    let out2 = b.handle_packet(echo(2, 2, 1, 0, b"x"));
    assert_eq!(out2.len(), 0);
    assert_eq!(b.state.echo_count(1, 0, &b"x".to_vec()), 4);
}

#[test]
fn singleton_cluster_self_delivery() {
    let cluster = [7u64];
    let mut nodes = build_cluster(&cluster);
    let out = nodes[0].send_message(b"solo".to_vec());
    assert_eq!(out.len(), 1);
    assert_eq!(out[0].dst, 7);
    route(&mut nodes, out, &[]);
    assert_eq!(nodes[0].check_output(7, 0).cloned(), Some(b"solo".to_vec()));
}

#[test]
fn two_proposers_deliver_independently() {
    let cluster = [1u64, 2, 3, 4];
    let mut nodes = build_cluster(&cluster);
    let out_a = nodes[0].send_message(b"from-a".to_vec());
    let out_d = nodes[3].send_message(b"from-d".to_vec());
    let mut queue = out_a;
    queue.extend(out_d);
    route(&mut nodes, queue, &[]);
    for n in &nodes {
        assert_eq!(n.check_output(1, 0).cloned(), Some(b"from-a".to_vec()));
        assert_eq!(n.check_output(4, 0).cloned(), Some(b"from-d".to_vec()));
        assert_eq!(n.check_output(2, 0), None);
    }
}

#[test]
fn packets_from_outside_the_cluster_are_dropped() {
    let cluster = [1u64, 2, 3, 4];
    let mut b = Protocol::create(cluster.to_vec(), 2).unwrap();
    let out = b.handle_packet(initial(9, 2, 0, b"x"));
    assert_eq!(out.len(), 0);
    assert_eq!(b.state.echoed_value(9, 0), None);
    let out2 = b.handle_packet(vote(1, 5, 1, 0, b"x"));
    assert_eq!(out2.len(), 0);
    assert_eq!(b.state.vote_count(1, 0, &b"x".to_vec()), 0);
}
