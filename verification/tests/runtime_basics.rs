use reliable_broadcast::bytes::{bytes_eq, copy_bytes};
use reliable_broadcast::crypto::{combine_partial_signatures, value_bft, PartialSignature, SigShare};
use reliable_broadcast::rb::Message;
use reliable_broadcast::runtime::{Protocol, ProtocolError};
use reliable_broadcast::store::MessageStore;

#[test]
fn create_rejects_non_member() {
    let res = Protocol::create(vec![1, 2, 3], 9);
    assert_eq!(res.err(), Some(ProtocolError::InvalidMembership));
}

#[test]
fn create_accepts_member_with_fresh_state() {
    let p = Protocol::create(vec![1, 2, 3], 2).unwrap();
    assert_eq!(p.round, 0);
    assert_eq!(p.state.address, 2);
    assert_eq!(p.check_output(1, 0), None);
}

#[test]
fn send_message_advances_the_round() {
    let mut p = Protocol::create(vec![1], 1).unwrap();
    let out0 = p.send_message(b"a".to_vec());
    assert_eq!(p.round, 1);
    let out1 = p.send_message(b"b".to_vec());
    assert_eq!(p.round, 2);
    assert_eq!(out0.len(), 1);
    assert_eq!(out1.len(), 1);
    match (&out0[0].msg, &out1[0].msg) {
        (Message::Initial { round: r0, .. }, Message::Initial { round: r1, .. }) => {
            assert_eq!(*r0, 0);
            assert_eq!(*r1, 1);
        }
        _ => panic!("expected initials"),
    }
}

#[test]
fn store_keeps_the_latest_value() {
    let mut s = MessageStore::new();
    assert!(s.get_value(5).is_none());
    s.set_value(5, b"first".to_vec());
    s.set_value(5, b"second".to_vec());
    assert_eq!(s.get_value(5).cloned(), Some(b"second".to_vec()));
    assert!(s.get_value(6).is_none());
}

#[test]
fn value_bft_reads_the_store_and_defaults_to_empty() {
    let mut s = MessageStore::new();
    s.set_value(3, b"val".to_vec());
    let (v, pr) = value_bft(&s, 3, 11);
    assert_eq!(v, b"val".to_vec());
    assert_eq!(pr.signer, 3);
    assert_eq!(pr.round, 11);
    let (v2, _) = value_bft(&s, 4, 11);
    assert_eq!(v2, Vec::<u8>::new());
}

#[test]
fn combine_collects_the_signers_in_order() {
    let shares = vec![
        SigShare { addr: 4, sig: PartialSignature { signer: 4, round: 2 } },
        SigShare { addr: 2, sig: PartialSignature { signer: 2, round: 2 } },
    ];
    let cs = combine_partial_signatures(2, &shares);
    assert_eq!(cs.round, 2);
    assert_eq!(cs.signers, vec![4, 2]);
}

#[test]
fn byte_helpers_compare_and_copy_by_content() {
    let a = b"abc".to_vec();
    let b = b"abc".to_vec();
    let c = b"abd".to_vec();
    let d = b"ab".to_vec();
    assert!(bytes_eq(&a, &b));
    assert!(!bytes_eq(&a, &c));
    assert!(!bytes_eq(&a, &d));
    assert_eq!(copy_bytes(&a), a);
    assert_eq!(copy_bytes(&Vec::new()), Vec::<u8>::new());
}

#[test]
fn message_reports_its_round() {
    let m1 = Message::Initial { round: 4, value: b"x".to_vec() };
    let m2 = Message::Echo { originator: 1, round: 5, value: b"x".to_vec() };
    let m3 = Message::Vote { originator: 1, round: 6, value: b"x".to_vec() };
    assert_eq!(m1.get_round(), 4);
    assert_eq!(m2.get_round(), 5);
    assert_eq!(m3.get_round(), 6);
}
