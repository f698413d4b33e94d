use ibc::client::{ClientState, TrustLevel};
use ibc::commitment::{
    commit_absence_root, commit_root, CommitmentPath, CommitmentPrefix, CommitmentProof,
    CommitmentRoot, LeafProof, ProofLayer, ProofSpec,
};
use ibc::height::Height;
use ibc::packet::{
    packet_commitment_vec, ChannelOrder, Packet, PacketError, PacketStore, RecvOutcome,
};
use ibc::timestamp::Timestamp;

fn skeleton() -> (CommitmentProof, Vec<ProofSpec>, CommitmentPrefix, CommitmentPath) {
    let proof = CommitmentProof {
        leaf: LeafProof::Membership,
        layers: vec![ProofLayer {
            prefix: b"p".to_vec(),
            suffix: b"s".to_vec(),
        }],
    };
    let specs = vec![ProofSpec { domain: 4 }];
    let prefix = CommitmentPrefix {
        bytes: b"ibc".to_vec(),
    };
    let path = CommitmentPath { keys: vec![] };
    (proof, specs, prefix, path)
}

fn packet(sequence: u64) -> Packet {
    Packet {
        sequence,
        data: b"coins".to_vec(),
        timeout_height: Some(Height::new(0, 100).unwrap()),
        timeout_timestamp: Timestamp::none(),
    }
}

fn client_with_root(root: CommitmentRoot) -> ClientState {
    ClientState {
        trust_level: TrustLevel {
            numerator: 1,
            denominator: 3,
        },
        trusting_period: 1_000,
        unbonding_period: 10_000,
        max_clock_drift: 50,
        latest_height: Height::new(0, 50).unwrap(),
        latest_timestamp: Timestamp::from_nanoseconds(500),
        root,
        frozen: false,
    }
}

fn recv_setup(p: &Packet) -> (PacketStore, ClientState, CommitmentProof, Vec<ProofSpec>, CommitmentPrefix, CommitmentPath) {
    let (proof, specs, prefix, path) = skeleton();
    let commitment = packet_commitment_vec(p);
    let root = commit_root(&proof, &specs, &prefix, &path, &commitment).unwrap();
    let client = client_with_root(root);
    let store = PacketStore::new(ChannelOrder::Ordered);
    (store, client, proof, specs, prefix, path)
}

const LOW_HEIGHT: u64 = 10;

#[test]
fn send_packet_writes_commitment() {
    let mut store = PacketStore::new(ChannelOrder::Ordered);
    let p = packet(1);
    let h = Height::new(0, LOW_HEIGHT).unwrap();
    let t = Timestamp::from_nanoseconds(5);
    assert_eq!(store.send_packet(&p, h, t), Ok(()));
    assert_eq!(store.next_sequence_send, 2);
    // Sending the same sequence again finds the commitment in place.
    assert_eq!(
        store.send_packet(&p, h, t),
        Err(PacketError::PacketSequenceOutOfOrder {
            sequence: 1,
            next_expected: 2,
        })
    );
}

#[test]
fn send_packet_requires_some_timeout() {
    let mut store = PacketStore::new(ChannelOrder::Unordered);
    let no_timeout = Packet {
        sequence: 1,
        data: vec![],
        timeout_height: None,
        timeout_timestamp: Timestamp::none(),
    };
    let h = Height::new(0, LOW_HEIGHT).unwrap();
    assert_eq!(
        store.send_packet(&no_timeout, h, Timestamp::none()),
        Err(PacketError::InvalidTimeout)
    );
}

#[test]
fn send_packet_rejects_elapsed_timeout() {
    let mut store = PacketStore::new(ChannelOrder::Unordered);
    let p = packet(1);
    let past_height = Height::new(0, 100).unwrap();
    assert_eq!(
        store.send_packet(&p, past_height, Timestamp::none()),
        Err(PacketError::InvalidTimeout)
    );
}

#[test]
fn send_packet_rejects_closed_channel() {
    let mut store = PacketStore::new(ChannelOrder::Ordered);
    store.closed = true;
    let p = packet(1);
    let h = Height::new(0, LOW_HEIGHT).unwrap();
    assert_eq!(
        store.send_packet(&p, h, Timestamp::none()),
        Err(PacketError::ChannelClosed)
    );
}

#[test]
fn send_packet_unordered_allows_any_sequence() {
    let mut store = PacketStore::new(ChannelOrder::Unordered);
    let h = Height::new(0, LOW_HEIGHT).unwrap();
    assert_eq!(store.send_packet(&packet(9), h, Timestamp::none()), Ok(()));
    assert_eq!(store.send_packet(&packet(3), h, Timestamp::none()), Ok(()));
    assert_eq!(store.next_sequence_send, 1);
    assert_eq!(
        store.send_packet(&packet(9), h, Timestamp::none()),
        Err(PacketError::PacketCommitmentAlreadyExists { sequence: 9 })
    );
}

#[test]
fn recv_packet_records_receipt_once() {
    let p = packet(1);
    let (mut store, client, proof, specs, prefix, path) = recv_setup(&p);
    let h = Height::new(0, LOW_HEIGHT).unwrap();
    let t = Timestamp::from_nanoseconds(5);
    let first = store
        .recv_packet(&client, &proof, &specs, &prefix, &path, &p, h, t)
        .unwrap();
    assert_eq!(first, RecvOutcome { replay: false });
    assert_eq!(store.next_sequence_recv, 2);

    // Second delivery of the same sequence: a no-op success, not a second
    // application callback.
    let second = store
        .recv_packet(&client, &proof, &specs, &prefix, &path, &p, h, t)
        .unwrap();
    assert_eq!(second, RecvOutcome { replay: true });
    assert_eq!(store.next_sequence_recv, 2);
}

#[test]
fn recv_packet_timeout_takes_precedence() {
    let p = packet(1);
    let (mut store, client, proof, specs, prefix, path) = recv_setup(&p);
    // The proof is valid, but the packet's timeout height has elapsed
    // locally: the receive must fail, never silently succeed.
    let elapsed = Height::new(0, 100).unwrap();
    let t = Timestamp::from_nanoseconds(5);
    assert_eq!(
        store.recv_packet(&client, &proof, &specs, &prefix, &path, &p, elapsed, t),
        Err(PacketError::PacketTimedOut)
    );
}

#[test]
fn recv_packet_enforces_order() {
    let p1 = packet(1);
    let (mut store, _, _, _, _, _) = recv_setup(&p1);
    let (proof, specs, prefix, path) = skeleton();
    let p2 = packet(2);
    let c2 = packet_commitment_vec(&p2);
    let root2 = commit_root(&proof, &specs, &prefix, &path, &c2).unwrap();
    let client2 = client_with_root(root2);
    let h = Height::new(0, LOW_HEIGHT).unwrap();
    let t = Timestamp::from_nanoseconds(5);

    // Sequence 2 before sequence 1 fails with an ordering error.
    assert_eq!(
        store.recv_packet(&client2, &proof, &specs, &prefix, &path, &p2, h, t),
        Err(PacketError::PacketSequenceOutOfOrder {
            sequence: 2,
            next_expected: 1,
        })
    );

    // After sequence 1 is processed, sequence 2 succeeds.
    let c1 = packet_commitment_vec(&p1);
    let root1 = commit_root(&proof, &specs, &prefix, &path, &c1).unwrap();
    let client1 = client_with_root(root1);
    assert_eq!(
        store.recv_packet(&client1, &proof, &specs, &prefix, &path, &p1, h, t),
        Ok(RecvOutcome { replay: false })
    );
    assert_eq!(
        store.recv_packet(&client2, &proof, &specs, &prefix, &path, &p2, h, t),
        Ok(RecvOutcome { replay: false })
    );
}

#[test]
fn recv_packet_rejects_frozen_client() {
    let p = packet(1);
    let (mut store, client, proof, specs, prefix, path) = recv_setup(&p);
    let frozen = ClientState {
        frozen: true,
        ..client
    };
    let h = Height::new(0, LOW_HEIGHT).unwrap();
    assert_eq!(
        store.recv_packet(&frozen, &proof, &specs, &prefix, &path, &p, h, Timestamp::none()),
        Err(PacketError::FrozenClient)
    );
}

#[test]
fn recv_packet_rejects_bad_proof() {
    let p = packet(1);
    let (mut store, _, proof, specs, prefix, path) = recv_setup(&p);
    let client = client_with_root(CommitmentRoot {
        bytes: b"wrong-root".to_vec(),
    });
    let h = Height::new(0, LOW_HEIGHT).unwrap();
    assert!(matches!(
        store.recv_packet(&client, &proof, &specs, &prefix, &path, &p, h, Timestamp::none()),
        Err(PacketError::ProofVerificationFailure(_))
    ));
}

#[test]
fn acknowledge_packet_closes_commitment() {
    let p = packet(1);
    let (proof, specs, prefix, path) = skeleton();
    let ack = b"{\"result\":\"AQ==\"}".to_vec();
    let root = commit_root(&proof, &specs, &prefix, &path, &ack).unwrap();
    let client = client_with_root(root);

    let mut store = PacketStore::new(ChannelOrder::Ordered);
    let h = Height::new(0, LOW_HEIGHT).unwrap();
    assert_eq!(store.send_packet(&p, h, Timestamp::none()), Ok(()));

    assert_eq!(
        store.acknowledge_packet(&client, &proof, &specs, &prefix, &path, &p, &ack),
        Ok(())
    );
    assert_eq!(store.next_sequence_ack, 2);

    // The commitment is gone: a second acknowledgement cannot find it.
    assert_eq!(
        store.acknowledge_packet(&client, &proof, &specs, &prefix, &path, &p, &ack),
        Err(PacketError::PacketCommitmentNotFound { sequence: 1 })
    );
}

#[test]
fn acknowledge_packet_rejects_wrong_packet() {
    let p = packet(1);
    let (proof, specs, prefix, path) = skeleton();
    let ack = b"ok".to_vec();
    let root = commit_root(&proof, &specs, &prefix, &path, &ack).unwrap();
    let client = client_with_root(root);

    let mut store = PacketStore::new(ChannelOrder::Ordered);
    let h = Height::new(0, LOW_HEIGHT).unwrap();
    assert_eq!(store.send_packet(&p, h, Timestamp::none()), Ok(()));

    let mut altered = p.clone();
    altered.data = b"tampered".to_vec();
    assert_eq!(
        store.acknowledge_packet(&client, &proof, &specs, &prefix, &path, &altered, &ack),
        Err(PacketError::IncorrectPacketCommitment { sequence: 1 })
    );
}

#[test]
fn timeout_packet_refunds_after_expiry() {
    let p = packet(1);
    let (mut proof, specs, prefix, path) = skeleton();
    proof.leaf = LeafProof::Absence {
        left_key: b"a".to_vec(),
        right_key: b"z".to_vec(),
    };
    let root = commit_absence_root(&proof, &specs, &prefix, &path).unwrap();
    let mut client = client_with_root(root);
    // The counterparty's verified height is past the packet timeout.
    client.latest_height = Height::new(0, 100).unwrap();

    let mut store = PacketStore::new(ChannelOrder::Unordered);
    let h = Height::new(0, LOW_HEIGHT).unwrap();
    assert_eq!(store.send_packet(&p, h, Timestamp::none()), Ok(()));

    assert_eq!(
        store.timeout_packet(&client, &proof, &specs, &prefix, &path, &p),
        Ok(())
    );
    // Closed: the commitment was deleted.
    assert_eq!(
        store.timeout_packet(&client, &proof, &specs, &prefix, &path, &p),
        Err(PacketError::PacketCommitmentNotFound { sequence: 1 })
    );
}

#[test]
fn timeout_packet_rejects_before_expiry() {
    let p = packet(1);
    let (mut proof, specs, prefix, path) = skeleton();
    proof.leaf = LeafProof::Absence {
        left_key: b"a".to_vec(),
        right_key: b"z".to_vec(),
    };
    let root = commit_absence_root(&proof, &specs, &prefix, &path).unwrap();
    let client = client_with_root(root);

    let mut store = PacketStore::new(ChannelOrder::Unordered);
    let h = Height::new(0, LOW_HEIGHT).unwrap();
    assert_eq!(store.send_packet(&p, h, Timestamp::none()), Ok(()));

    assert_eq!(
        store.timeout_packet(&client, &proof, &specs, &prefix, &path, &p),
        Err(PacketError::TimeoutNotReached)
    );
}
