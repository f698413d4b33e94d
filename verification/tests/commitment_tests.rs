use ibc::commitment::{
    commit_absence_root, commit_root, verify_membership, verify_non_membership, CommitmentPath,
    CommitmentPrefix, CommitmentProof, CommitmentRoot, Error, LeafProof, ProofLayer, ProofSpec,
};

fn two_layer_proof() -> (CommitmentProof, Vec<ProofSpec>, CommitmentPrefix, CommitmentPath) {
    let proof = CommitmentProof {
        leaf: LeafProof::Membership,
        layers: vec![
            ProofLayer {
                prefix: b"left-sibling".to_vec(),
                suffix: b"right-sibling".to_vec(),
            },
            ProofLayer {
                prefix: b"outer-left".to_vec(),
                suffix: vec![],
            },
        ],
    };
    let specs = vec![ProofSpec { domain: 1 }, ProofSpec { domain: 2 }];
    let prefix = CommitmentPrefix {
        bytes: b"ibc".to_vec(),
    };
    let path = CommitmentPath {
        keys: vec![b"commitments/ports/transfer/channels/channel-0/sequences/1".to_vec()],
    };
    (proof, specs, prefix, path)
}

#[test]
fn membership_accepts_generated_root() {
    let (proof, specs, prefix, path) = two_layer_proof();
    let value = b"stored-value".to_vec();
    let root = commit_root(&proof, &specs, &prefix, &path, &value).unwrap();
    assert_eq!(
        verify_membership(&root, &proof, &specs, &prefix, &path, &value),
        Ok(())
    );
}

#[test]
fn membership_rejects_flipped_root_byte() {
    let (proof, specs, prefix, path) = two_layer_proof();
    let value = b"stored-value".to_vec();
    let root = commit_root(&proof, &specs, &prefix, &path, &value).unwrap();
    for i in 0..root.bytes.len() {
        let mut tampered = root.bytes.clone();
        tampered[i] ^= 0x01;
        let bad = CommitmentRoot { bytes: tampered };
        assert_eq!(
            verify_membership(&bad, &proof, &specs, &prefix, &path, &value),
            Err(Error::VerificationFailure)
        );
    }
}

#[test]
fn membership_rejects_other_value() {
    let (proof, specs, prefix, path) = two_layer_proof();
    let value = b"stored-value".to_vec();
    let root = commit_root(&proof, &specs, &prefix, &path, &value).unwrap();
    let other = b"other-value".to_vec();
    assert_eq!(
        verify_membership(&root, &proof, &specs, &prefix, &path, &other),
        Err(Error::VerificationFailure)
    );
}

#[test]
fn membership_shape_errors() {
    let (proof, specs, prefix, path) = two_layer_proof();
    let value = b"v".to_vec();
    let root = commit_root(&proof, &specs, &prefix, &path, &value).unwrap();

    let empty_root = CommitmentRoot { bytes: vec![] };
    assert_eq!(
        verify_membership(&empty_root, &proof, &specs, &prefix, &path, &value),
        Err(Error::EmptyMerkleRoot)
    );

    let empty_proof = CommitmentProof {
        leaf: LeafProof::Membership,
        layers: vec![],
    };
    assert_eq!(
        verify_membership(&root, &empty_proof, &specs, &prefix, &path, &value),
        Err(Error::EmptyMerkleProof)
    );

    let empty_prefix = CommitmentPrefix { bytes: vec![] };
    assert_eq!(
        verify_membership(&root, &proof, &specs, &empty_prefix, &path, &value),
        Err(Error::EmptyCommitmentPrefix)
    );

    let empty_value: Vec<u8> = vec![];
    assert_eq!(
        verify_membership(&root, &proof, &specs, &prefix, &path, &empty_value),
        Err(Error::EmptyVerifiedValue)
    );

    let one_spec = vec![ProofSpec { domain: 1 }];
    assert_eq!(
        verify_membership(&root, &proof, &one_spec, &prefix, &path, &value),
        Err(Error::NumberOfSpecsMismatch)
    );

    let long_path = CommitmentPath {
        keys: vec![b"a".to_vec(), b"b".to_vec()],
    };
    assert_eq!(
        verify_membership(&root, &proof, &specs, &prefix, &long_path, &value),
        Err(Error::NumberOfKeysMismatch)
    );
}

#[test]
fn membership_rejects_absence_leaf() {
    let (mut proof, specs, prefix, path) = two_layer_proof();
    let value = b"v".to_vec();
    let root = commit_root(&proof, &specs, &prefix, &path, &value).unwrap();
    proof.leaf = LeafProof::Absence {
        left_key: b"a".to_vec(),
        right_key: b"z".to_vec(),
    };
    assert_eq!(
        verify_membership(&root, &proof, &specs, &prefix, &path, &value),
        Err(Error::InvalidMerkleProof)
    );
}

#[test]
fn non_membership_accepts_bracketing_pair() {
    let (mut proof, specs, prefix, path) = two_layer_proof();
    proof.leaf = LeafProof::Absence {
        left_key: b"commitments/ports/transfer/channels/channel-0/sequences/0".to_vec(),
        right_key: b"commitments/ports/transfer/channels/channel-0/sequences/2".to_vec(),
    };
    let root = commit_absence_root(&proof, &specs, &prefix, &path).unwrap();
    assert_eq!(
        verify_non_membership(&root, &proof, &specs, &prefix, &path),
        Ok(())
    );
}

#[test]
fn non_membership_rejects_pair_that_does_not_bracket() {
    let (mut proof, specs, prefix, path) = two_layer_proof();
    proof.leaf = LeafProof::Absence {
        left_key: b"x".to_vec(),
        right_key: b"z".to_vec(),
    };
    assert_eq!(
        commit_absence_root(&proof, &specs, &prefix, &path),
        Err(Error::VerificationFailure)
    );
}

#[test]
fn non_membership_rejects_membership_leaf() {
    let (proof, specs, prefix, path) = two_layer_proof();
    let value = b"v".to_vec();
    let root = commit_root(&proof, &specs, &prefix, &path, &value).unwrap();
    assert_eq!(
        verify_non_membership(&root, &proof, &specs, &prefix, &path),
        Err(Error::InvalidMerkleProof)
    );
}
