use ibc::client::{ClientState, Misbehaviour, TrustLevel};
use ibc::client_error::ClientError;
use ibc::commitment::{
    commit_root, CommitmentPath, CommitmentPrefix, CommitmentProof, CommitmentRoot, LeafProof,
    ProofLayer, ProofSpec,
};
use ibc::header::MockHeader;
use ibc::height::Height;
use ibc::timestamp::Timestamp;

fn consensus_proof() -> (CommitmentProof, Vec<ProofSpec>, CommitmentPrefix, CommitmentPath) {
    let proof = CommitmentProof {
        leaf: LeafProof::Membership,
        layers: vec![ProofLayer {
            prefix: b"pre".to_vec(),
            suffix: b"suf".to_vec(),
        }],
    };
    let specs = vec![ProofSpec { domain: 9 }];
    let prefix = CommitmentPrefix {
        bytes: b"ibc".to_vec(),
    };
    let path = CommitmentPath { keys: vec![] };
    (proof, specs, prefix, path)
}

fn client_at(height: Height, now_nanos: u64, root: CommitmentRoot) -> ClientState {
    ClientState {
        trust_level: TrustLevel {
            numerator: 1,
            denominator: 3,
        },
        trusting_period: 1_000,
        unbonding_period: 10_000,
        max_clock_drift: 50,
        latest_height: height,
        latest_timestamp: Timestamp::from_nanoseconds(now_nanos),
        root,
        frozen: false,
    }
}

fn setup_update() -> (ClientState, MockHeader, CommitmentRoot, CommitmentProof, Vec<ProofSpec>, CommitmentPrefix, CommitmentPath) {
    let (proof, specs, prefix, path) = consensus_proof();
    let new_root = CommitmentRoot {
        bytes: b"next-consensus-root".to_vec(),
    };
    let trusted_root = commit_root(&proof, &specs, &prefix, &path, &new_root.bytes).unwrap();
    let client = client_at(Height::new(0, 5).unwrap(), 100, trusted_root);
    let header = MockHeader::new(Height::new(0, 6).unwrap())
        .with_timestamp(Timestamp::from_nanoseconds(150));
    (client, header, new_root, proof, specs, prefix, path)
}

#[test]
fn update_header_advances_monotonically() {
    let (client, header, new_root, proof, specs, prefix, path) = setup_update();
    let now = Timestamp::from_nanoseconds(160);
    let next = client
        .update_header(header, new_root.clone(), &proof, &specs, &prefix, &path, now)
        .unwrap();
    assert_eq!(next.latest_height, Height::new(0, 6).unwrap());
    assert_eq!(next.latest_timestamp.nanoseconds(), 150);
    assert_eq!(next.root, new_root);
    assert!(!next.frozen);
    assert!(client.latest_height.lt(&next.latest_height));
}

#[test]
fn update_header_rejects_stale_height() {
    let (client, _, new_root, proof, specs, prefix, path) = setup_update();
    let now = Timestamp::from_nanoseconds(160);
    let stale = MockHeader::new(Height::new(0, 5).unwrap())
        .with_timestamp(Timestamp::from_nanoseconds(150));
    assert_eq!(
        client.update_header(stale, new_root, &proof, &specs, &prefix, &path, now),
        Err(ClientError::LowHeaderHeight {
            header_height: Height::new(0, 5).unwrap(),
            latest_height: Height::new(0, 5).unwrap(),
        })
    );
}

#[test]
fn update_header_rejects_outside_trusting_period() {
    let (client, header, new_root, proof, specs, prefix, path) = setup_update();
    let too_late = Timestamp::from_nanoseconds(100 + 1_000 + 1);
    assert_eq!(
        client.update_header(header, new_root, &proof, &specs, &prefix, &path, too_late),
        Err(ClientError::HeaderNotWithinTrustPeriod)
    );
}

#[test]
fn update_header_rejects_clock_drift() {
    let (client, _, new_root, proof, specs, prefix, path) = setup_update();
    let now = Timestamp::from_nanoseconds(160);
    let drifted = MockHeader::new(Height::new(0, 6).unwrap())
        .with_timestamp(Timestamp::from_nanoseconds(160 + 50 + 1));
    assert_eq!(
        client.update_header(drifted, new_root, &proof, &specs, &prefix, &path, now),
        Err(ClientError::ClockDriftExceeded)
    );
}

#[test]
fn update_header_rejects_bad_proof() {
    let (client, header, _, proof, specs, prefix, path) = setup_update();
    let now = Timestamp::from_nanoseconds(160);
    let other_root = CommitmentRoot {
        bytes: b"some-other-root".to_vec(),
    };
    assert!(matches!(
        client.update_header(header, other_root, &proof, &specs, &prefix, &path, now),
        Err(ClientError::HeaderVerificationFailure(_))
    ));
}

#[test]
fn misbehaviour_freezes_client() {
    let (client, _, _, _, _, _, _) = setup_update();
    let h1 = MockHeader::new(Height::new(0, 7).unwrap())
        .with_timestamp(Timestamp::from_nanoseconds(10));
    let h2 = MockHeader::new(Height::new(0, 7).unwrap())
        .with_timestamp(Timestamp::from_nanoseconds(20));
    let frozen = client
        .check_misbehaviour(&Misbehaviour {
            header1: h1,
            header2: h2,
        })
        .unwrap();
    assert!(frozen.frozen);
}

#[test]
fn misbehaviour_requires_conflict() {
    let (client, _, _, _, _, _, _) = setup_update();
    let h = MockHeader::new(Height::new(0, 7).unwrap());
    assert_eq!(
        client.check_misbehaviour(&Misbehaviour {
            header1: h,
            header2: h,
        }),
        Err(ClientError::MisbehaviourNotShown)
    );
}

#[test]
fn frozen_client_rejects_valid_headers() {
    let (client, _, _, _, _, _, _) = setup_update();
    let h1 = MockHeader::new(Height::new(0, 7).unwrap())
        .with_timestamp(Timestamp::from_nanoseconds(10));
    let h2 = MockHeader::new(Height::new(0, 7).unwrap())
        .with_timestamp(Timestamp::from_nanoseconds(20));
    let frozen = client
        .check_misbehaviour(&Misbehaviour {
            header1: h1,
            header2: h2,
        })
        .unwrap();

    // The same header and proof that would advance an active client.
    let (active, header, new_root, proof, specs, prefix, path) = setup_update();
    let now = Timestamp::from_nanoseconds(160);
    assert!(active
        .update_header(header, new_root.clone(), &proof, &specs, &prefix, &path, now)
        .is_ok());
    let frozen_with_same_root = ClientState {
        frozen: true,
        ..active
    };
    assert_eq!(
        frozen_with_same_root.update_header(
            header, new_root, &proof, &specs, &prefix, &path, now
        ),
        Err(ClientError::ClientFrozen)
    );
    assert_eq!(
        frozen.check_misbehaviour(&Misbehaviour {
            header1: h1,
            header2: h2,
        }),
        Err(ClientError::ClientFrozen)
    );
}

#[test]
fn client_state_wire_round_trip() {
    let (client, _, _, _, _, _, _) = setup_update();
    let bytes = client.encode_vec();
    let decoded = ClientState::decode_vec(&bytes).unwrap();
    assert_eq!(decoded, client);

    let frozen = ClientState {
        frozen: true,
        ..client
    };
    let decoded_frozen = ClientState::decode_vec(&frozen.encode_vec()).unwrap();
    assert_eq!(decoded_frozen, frozen);
}

#[test]
fn client_state_decode_rejects_truncation() {
    let (client, _, _, _, _, _, _) = setup_update();
    let bytes = client.encode_vec();
    for cut in [0usize, 10, 63, bytes.len() - 1] {
        let truncated = bytes[..cut].to_vec();
        assert!(ClientState::decode_vec(&truncated).is_err());
    }
    let mut extended = bytes.clone();
    extended.push(0);
    assert!(ClientState::decode_vec(&extended).is_err());
}
