use reliable_broadcast::crypto::{PartialSignature, Proof};
use reliable_broadcast::pb::{InternalEvent, Message, NodeState, ProvableBroadcast};
use reliable_broadcast::store::MessageStore;

fn share(signer: u64, round: u64) -> PartialSignature {
    PartialSignature { signer, round }
}

#[test]
fn pb_threshold_exactness() {
    // n = 5, f = 1, so the signature threshold is 4.
    let pbc = ProvableBroadcast { node_addresses: vec![1, 2, 3, 4, 5], num_byzantine: 1 };
    assert_eq!(pbc.signature_threshold(), 4);
    let mut store = MessageStore::new();
    store.set_value(1, b"v".to_vec());
    let mut st = NodeState::new(1);

    let out = pbc.proc_int(&store, &mut st, InternalEvent::SendAction { round: 7 });
    assert_eq!(out.len(), 5);
    // a repeated send action for the same round is a no-op
    let out2 = pbc.proc_int(&store, &mut st, InternalEvent::SendAction { round: 7 });
    assert_eq!(out2.len(), 0);

    // three distinct valid echoes: no output yet
    for src in [2u64, 3, 4] {
        let o = pbc.proc_msg(
            &store,
            &mut st,
            src,
            Message::Echo { round: 7, partial_signature: share(src, 7) },
        );
        assert_eq!(o.len(), 0);
        assert!(st.output_get(7).is_none());
    }
    assert_eq!(st.counter_len(7), 3);

    // an invalid share (signed for the wrong round) is not counted
    let _ = pbc.proc_msg(
        &store,
        &mut st,
        5,
        Message::Echo { round: 7, partial_signature: share(5, 8) },
    );
    assert_eq!(st.counter_len(7), 3);

    // a duplicate source is not counted
    let _ = pbc.proc_msg(
        &store,
        &mut st,
        2,
        Message::Echo { round: 7, partial_signature: share(2, 7) },
    );
    assert_eq!(st.counter_len(7), 3);
    assert!(st.output_get(7).is_none());

    // the fourth distinct valid echo populates the output
    let _ = pbc.proc_msg(
        &store,
        &mut st,
        5,
        Message::Echo { round: 7, partial_signature: share(5, 7) },
    );
    assert_eq!(st.counter_len(7), 4);
    let combined = st.output_get(7).expect("threshold reached");
    assert_eq!(combined.round, 7);
    assert_eq!(combined.signers, vec![2, 3, 4, 5]);

    // a further echo does not re-combine nor grow the counter
    let _ = pbc.proc_msg(
        &store,
        &mut st,
        1,
        Message::Echo { round: 7, partial_signature: share(1, 7) },
    );
    assert_eq!(st.counter_len(7), 4);
    assert_eq!(st.output_get(7).unwrap().signers, vec![2, 3, 4, 5]);
}

#[test]
fn pb_receiver_echoes_valid_init_to_sender() {
    let pbc = ProvableBroadcast { node_addresses: vec![1, 2, 3], num_byzantine: 0 };
    let store = MessageStore::new();
    let mut st = NodeState::new(2);
    let out = pbc.proc_msg(
        &store,
        &mut st,
        1,
        Message::Init { round: 3, value: b"w".to_vec(), proof: Proof { signer: 1, round: 3 } },
    );
    assert_eq!(out.len(), 1);
    assert_eq!(out[0].src, 2);
    assert_eq!(out[0].dst, 1);
    match &out[0].msg {
        Message::Echo { round, partial_signature } => {
            assert_eq!(*round, 3);
            assert_eq!(*partial_signature, share(2, 3));
        }
        _ => panic!("expected an echo"),
    }
}

#[test]
fn pb_invalid_proof_is_dropped() {
    let pbc = ProvableBroadcast { node_addresses: vec![1, 2, 3], num_byzantine: 0 };
    let store = MessageStore::new();
    let mut st = NodeState::new(2);
    let out = pbc.proc_msg(
        &store,
        &mut st,
        1,
        Message::Init { round: 3, value: b"w".to_vec(), proof: Proof { signer: 1, round: 4 } },
    );
    assert_eq!(out.len(), 0);
}

#[test]
fn pb_sender_ignores_init_for_its_own_round() {
    let pbc = ProvableBroadcast { node_addresses: vec![1, 2, 3], num_byzantine: 0 };
    let mut store = MessageStore::new();
    store.set_value(1, b"mine".to_vec());
    let mut st = NodeState::new(1);
    let out = pbc.proc_int(&store, &mut st, InternalEvent::SendAction { round: 0 });
    assert_eq!(out.len(), 3);
    match &out[0].msg {
        Message::Init { round, value, proof } => {
            assert_eq!(*round, 0);
            assert_eq!(value, &b"mine".to_vec());
            assert_eq!(*proof, Proof { signer: 1, round: 0 });
        }
        _ => panic!("expected an init"),
    }
    // the sender does not echo an init for a round it opened itself
    let back = pbc.proc_msg(
        &store,
        &mut st,
        2,
        Message::Init { round: 0, value: b"other".to_vec(), proof: Proof { signer: 2, round: 0 } },
    );
    assert_eq!(back.len(), 0);
}

#[test]
fn pb_echo_from_non_sender_is_ignored() {
    let pbc = ProvableBroadcast { node_addresses: vec![1, 2, 3], num_byzantine: 0 };
    let store = MessageStore::new();
    let mut st = NodeState::new(2);
    // node 2 never opened round 5, so an echo for it is dropped
    let out = pbc.proc_msg(
        &store,
        &mut st,
        3,
        Message::Echo { round: 5, partial_signature: share(3, 5) },
    );
    assert_eq!(out.len(), 0);
    assert_eq!(st.counter_len(5), 0);
}
