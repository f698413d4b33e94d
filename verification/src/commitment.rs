//! Commitment-proof engine: byte-string value types for roots, prefixes and
//! paths, self-describing layered proofs, and the membership and
//! non-membership verification predicates.

use vstd::prelude::*;

use crate::codec::DecodeError;

verus! {

/// Terminal outcomes of proof verification; none is retryable within a call.
#[derive(Clone, Copy, Debug, PartialEq, Eq, Structural)]
pub enum Error {
    /// A raw proof envelope failed to decode.
    InvalidRawMerkleProof(DecodeError),
    /// A proof body failed to decode.
    CommitmentProofDecodingFailed(DecodeError),
    /// The store prefix is empty.
    EmptyCommitmentPrefix,
    /// The proof carries no layers.
    EmptyMerkleProof,
    /// The root digest is empty.
    EmptyMerkleRoot,
    /// A membership check was asked about an empty value.
    EmptyVerifiedValue,
    /// The number of proof layers differs from the number of specs.
    NumberOfSpecsMismatch,
    /// The number of path keys differs from the number of proof layers.
    NumberOfKeysMismatch,
    /// The proof is structurally unusable for the requested check.
    InvalidMerkleProof,
    /// The re-derived digest does not match the supplied root.
    VerificationFailure,
}

/// The digest extracted from a verified consensus state; never empty.
#[derive(Clone, Debug, PartialEq, Eq)]
pub struct CommitmentRoot {
    pub bytes: Vec<u8>,
}

/// A chain-specific store namespace prepended to every proven path; never
/// empty.
#[derive(Clone, Debug, PartialEq, Eq)]
pub struct CommitmentPrefix {
    pub bytes: Vec<u8>,
}

/// A structured key: one key per storage layer, outermost first.
#[derive(Clone, Debug, PartialEq, Eq)]
pub struct CommitmentPath {
    pub keys: Vec<Vec<u8>>,
}

/// The hashing rules of one storage layer: a domain separator that keeps
/// digests of different layers apart.
#[derive(Clone, Copy, Debug, PartialEq, Eq, Structural)]
pub struct ProofSpec {
    pub domain: u64,
}

/// One per-layer proof node: the sibling bytes that stand left and right of
/// the proven entry in that layer's hash input.
#[derive(Clone, Debug, PartialEq, Eq)]
pub struct ProofLayer {
    pub prefix: Vec<u8>,
    pub suffix: Vec<u8>,
}

/// How the innermost layer attests its key: by the proven value itself, or
/// by an adjacent pair of existing keys that brackets the missing one.
#[derive(Clone, Debug, PartialEq, Eq)]
pub enum LeafProof {
    Membership,
    Absence { left_key: Vec<u8>, right_key: Vec<u8> },
}

/// A self-describing layered proof, consumed once per verification call.
#[derive(Clone, Debug, PartialEq, Eq)]
pub struct CommitmentProof {
    pub leaf: LeafProof,
    pub layers: Vec<ProofLayer>,
}

/// One step of the rolling digest.
pub open spec fn digest_step(h: nat, b: u8) -> nat {
    ((h * 131 + b + 1) % 0x10000000000000000) as nat
}

/// The rolling digest of a byte string, folded left from `h`.
pub open spec fn digest_from(h: nat, s: Seq<u8>) -> nat
    decreases s.len(),
{
    if s.len() == 0 {
        h
    } else {
        digest_from(digest_step(h, s[0]), s.drop_first())
    }
}

proof fn lemma_digest_snoc(h: nat, s: Seq<u8>, b: u8)
    ensures
        digest_from(h, s.push(b)) == digest_step(digest_from(h, s), b),
    decreases s.len(),
{
    if s.len() == 0 {
        assert(s.push(b).len() == 1);
        assert(s.push(b)[0] == b);
        assert(s.push(b).drop_first() =~= Seq::<u8>::empty());
        assert(digest_from(digest_step(h, b), Seq::<u8>::empty()) == digest_step(h, b));
        assert(digest_from(h, s) == h);
    } else {
        assert(s.push(b)[0] == s[0]);
        assert(s.push(b).drop_first() =~= s.drop_first().push(b));
        lemma_digest_snoc(digest_step(h, s[0]), s.drop_first(), b);
        assert(digest_from(h, s.push(b)) == digest_from(
            digest_step(h, s[0]),
            s.drop_first().push(b),
        ));
        assert(digest_from(h, s) == digest_from(digest_step(h, s[0]), s.drop_first()));
    }
}

/// Folds the digest over `data`, starting from `h`.
pub(crate) fn digest_update(h: u64, data: &Vec<u8>) -> (r: u64)
    ensures
        r as nat == digest_from(h as nat, data@),
{
    let mut cur = h;
    let mut i: usize = 0;
    while i < data.len()
        invariant
            i <= data@.len(),
            cur as nat == digest_from(h as nat, data@.subrange(0, i as int)),
        decreases data@.len() - i,
    {
        let t: u128 = cur as u128 * 131 + data[i] as u128 + 1;
        let m: u128 = t % 0x10000000000000000u128;
        let next = m as u64;
        proof {
            assert(next as nat == digest_step(cur as nat, data@[i as int]));
            assert(data@.subrange(0, i as int + 1) =~= data@.subrange(0, i as int).push(
                data@[i as int],
            ));
            lemma_digest_snoc(h as nat, data@.subrange(0, i as int), data@[i as int]);
        }
        cur = next;
        i = i + 1;
    }
    proof {
        assert(data@.subrange(0, data@.len() as int) =~= data@);
    }
    cur
}

/// The starting digest of a layer, separated by the layer's domain.
pub open spec fn domain_seed(domain: u64) -> nat {
    ((0xcbf29ce484222325 + domain) % 0x10000000000000000) as nat
}

pub(crate) fn domain_seed_exec(domain: u64) -> (r: u64)
    ensures
        r as nat == domain_seed(domain),
{
    let t: u128 = 0xcbf29ce484222325u128 + domain as u128;
    let m: u128 = t % 0x10000000000000000u128;
    m as u64
}

/// The digest a layer re-derives: its sibling prefix, the layer's key, the
/// child value carried up from below, then the sibling suffix.
pub open spec fn layer_hash(sp: ProofSpec, layer: ProofLayer, key: Seq<u8>, child: Seq<u8>) -> nat {
    digest_from(
        digest_from(digest_from(digest_from(domain_seed(sp.domain), layer.prefix@), key), child),
        layer.suffix@,
    )
}

fn layer_hash_exec(sp: &ProofSpec, layer: &ProofLayer, key: &Vec<u8>, child: &Vec<u8>) -> (r: u64)
    ensures
        r as nat == layer_hash(*sp, *layer, key@, child@),
{
    let h0 = domain_seed_exec(sp.domain);
    let h1 = digest_update(h0, &layer.prefix);
    let h2 = digest_update(h1, key);
    let h3 = digest_update(h2, child);
    digest_update(h3, &layer.suffix)
}

/// A digest spelled out as eight bytes, most significant first.
pub open spec fn be8(h: nat) -> Seq<u8> {
    seq![
        ((h / 0x100000000000000) % 256) as u8,
        ((h / 0x1000000000000) % 256) as u8,
        ((h / 0x10000000000) % 256) as u8,
        ((h / 0x100000000) % 256) as u8,
        ((h / 0x1000000) % 256) as u8,
        ((h / 0x10000) % 256) as u8,
        ((h / 0x100) % 256) as u8,
        (h % 256) as u8,
    ]
}

pub fn be8_vec(h: u64) -> (v: Vec<u8>)
    ensures
        v@ == be8(h as nat),
{
    let mut v: Vec<u8> = Vec::new();
    v.push(((h / 0x100000000000000) % 256) as u8);
    v.push(((h / 0x1000000000000) % 256) as u8);
    v.push(((h / 0x10000000000) % 256) as u8);
    v.push(((h / 0x100000000) % 256) as u8);
    v.push(((h / 0x1000000) % 256) as u8);
    v.push(((h / 0x10000) % 256) as u8);
    v.push(((h / 0x100) % 256) as u8);
    v.push((h % 256) as u8);
    proof {
        assert(v@ =~= be8(h as nat));
    }
    v
}

/// The composite key path: the store prefix prepended to the structured
/// path, outermost first.
pub open spec fn composite_keys(prefix: CommitmentPrefix, path: CommitmentPath) -> Seq<Seq<u8>> {
    seq![prefix.bytes@] + path.keys@.map_values(|k: Vec<u8>| k@)
}

/// The digest of layer `i`, re-derived leaf-to-root: layer 0 hashes the
/// leaf value under the innermost key, and each layer above hashes the
/// previous digest under the next key outward.
pub open spec fn layer_out(
    specs: Seq<ProofSpec>,
    layers: Seq<ProofLayer>,
    keys: Seq<Seq<u8>>,
    value: Seq<u8>,
    i: int,
) -> nat
    decreases i,
{
    if i <= 0 {
        layer_hash(specs[0], layers[0], keys[layers.len() - 1], value)
    } else {
        layer_hash(
            specs[i],
            layers[i],
            keys[layers.len() - 1 - i],
            be8(layer_out(specs, layers, keys, value, i - 1)),
        )
    }
}

/// The digest the whole proof re-derives for a given leaf value.
pub open spec fn derived_digest(
    specs: Seq<ProofSpec>,
    layers: Seq<ProofLayer>,
    keys: Seq<Seq<u8>>,
    value: Seq<u8>,
) -> nat {
    layer_out(specs, layers, keys, value, layers.len() - 1)
}


/// Strict lexicographic order on byte strings.
pub open spec fn bytes_lt(a: Seq<u8>, b: Seq<u8>) -> bool
    decreases a.len(),
{
    if b.len() == 0 {
        false
    } else if a.len() == 0 {
        true
    } else if a[0] < b[0] {
        true
    } else if a[0] > b[0] {
        false
    } else {
        bytes_lt(a.drop_first(), b.drop_first())
    }
}

fn bytes_lt_exec(a: &Vec<u8>, b: &Vec<u8>) -> (r: bool)
    ensures
        r == bytes_lt(a@, b@),
{
    let mut i: usize = 0;
    proof {
        assert(a@.skip(0) =~= a@);
        assert(b@.skip(0) =~= b@);
    }
    loop
        invariant
            i <= a@.len(),
            i <= b@.len(),
            bytes_lt(a@, b@) == bytes_lt(a@.skip(i as int), b@.skip(i as int)),
        decreases a@.len() - i,
    {
        if i >= b.len() {
            proof {
                assert(b@.skip(i as int).len() == 0);
            }
            return false;
        }
        if i >= a.len() {
            proof {
                assert(a@.skip(i as int).len() == 0);
                assert(b@.skip(i as int).len() > 0);
            }
            return true;
        }
        let x = a[i];
        let y = b[i];
        proof {
            assert(a@.skip(i as int)[0] == a@[i as int]);
            assert(b@.skip(i as int)[0] == b@[i as int]);
        }
        if x < y {
            return true;
        }
        if x > y {
            return false;
        }
        proof {
            assert(a@.skip(i as int).drop_first() =~= a@.skip(i as int + 1));
            assert(b@.skip(i as int).drop_first() =~= b@.skip(i as int + 1));
        }
        i = i + 1;
    }
}

/// Shape conditions under which a proof can be walked at all: at least one
/// layer, one spec per layer, and one composite key per layer.
pub open spec fn proof_shape_ok(
    proof: CommitmentProof,
    specs: Seq<ProofSpec>,
    prefix: CommitmentPrefix,
    path: CommitmentPath,
) -> bool {
    &&& proof.layers@.len() >= 1
    &&& proof.layers@.len() == specs.len()
    &&& path.keys@.len() + 1 == proof.layers@.len()
}

/// Walks the layers leaf-to-root and returns the re-derived digest.
fn derive_digest_exec(
    proof: &CommitmentProof,
    specs: &Vec<ProofSpec>,
    prefix: &CommitmentPrefix,
    path: &CommitmentPath,
    leaf_value: &Vec<u8>,
) -> (r: u64)
    requires
        proof_shape_ok(*proof, specs@, *prefix, *path),
    ensures
        r as nat == derived_digest(
            specs@,
            proof.layers@,
            composite_keys(*prefix, *path),
            leaf_value@,
        ),
{
    let l = proof.layers.len();
    let ghost comp = composite_keys(*prefix, *path);
    let key0: &Vec<u8> = if l == 1 {
        &prefix.bytes
    } else {
        &path.keys[l - 2]
    };
    proof {
        assert(comp[l - 1] == key0@);
    }
    let mut digest = layer_hash_exec(&specs[0], &proof.layers[0], key0, leaf_value);
    let mut i: usize = 1;
    while i < l
        invariant
            1 <= i <= l,
            l == proof.layers@.len(),
            proof_shape_ok(*proof, specs@, *prefix, *path),
            comp == composite_keys(*prefix, *path),
            digest as nat == layer_out(specs@, proof.layers@, comp, leaf_value@, i - 1),
        decreases l - i,
    {
        let child = be8_vec(digest);
        let key: &Vec<u8> = if i == l - 1 {
            &prefix.bytes
        } else {
            &path.keys[l - 2 - i]
        };
        proof {
            assert(comp[l - 1 - i] == key@);
        }
        digest = layer_hash_exec(&specs[i], &proof.layers[i], key, &child);
        i = i + 1;
    }
    digest
}

/// The verification outcome for a membership check, as a single predicate:
/// the cascade of shape checks, then the digest comparison against the root.
pub open spec fn spec_verify_membership(
    root: CommitmentRoot,
    proof: CommitmentProof,
    specs: Seq<ProofSpec>,
    prefix: CommitmentPrefix,
    path: CommitmentPath,
    value: Seq<u8>,
) -> Result<(), Error> {
    if root.bytes@.len() == 0 {
        Err(Error::EmptyMerkleRoot)
    } else if proof.layers@.len() == 0 {
        Err(Error::EmptyMerkleProof)
    } else if prefix.bytes@.len() == 0 {
        Err(Error::EmptyCommitmentPrefix)
    } else if value.len() == 0 {
        Err(Error::EmptyVerifiedValue)
    } else if proof.layers@.len() != specs.len() {
        Err(Error::NumberOfSpecsMismatch)
    } else if path.keys@.len() + 1 != proof.layers@.len() {
        Err(Error::NumberOfKeysMismatch)
    } else if !(proof.leaf is Membership) {
        Err(Error::InvalidMerkleProof)
    } else if root.bytes@ != be8(
        derived_digest(specs, proof.layers@, composite_keys(prefix, path), value),
    ) {
        Err(Error::VerificationFailure)
    } else {
        Ok(())
    }
}

/// Verifies that `value` stands under the composite key `prefix ++ path`
/// beneath `root`; a pure predicate over its inputs, with no side effects.
pub fn verify_membership(
    root: &CommitmentRoot,
    proof: &CommitmentProof,
    specs: &Vec<ProofSpec>,
    prefix: &CommitmentPrefix,
    path: &CommitmentPath,
    value: &Vec<u8>,
) -> (r: Result<(), Error>)
    ensures
        r == spec_verify_membership(*root, *proof, specs@, *prefix, *path, value@),
{
    if root.bytes.len() == 0 {
        return Err(Error::EmptyMerkleRoot);
    }
    if proof.layers.len() == 0 {
        return Err(Error::EmptyMerkleProof);
    }
    if prefix.bytes.len() == 0 {
        return Err(Error::EmptyCommitmentPrefix);
    }
    if value.len() == 0 {
        return Err(Error::EmptyVerifiedValue);
    }
    if proof.layers.len() != specs.len() {
        return Err(Error::NumberOfSpecsMismatch);
    }
    if path.keys.len() != proof.layers.len() - 1 {
        return Err(Error::NumberOfKeysMismatch);
    }
    match &proof.leaf {
        LeafProof::Membership => {},
        LeafProof::Absence { .. } => {
            return Err(Error::InvalidMerkleProof);
        },
    }
    let digest = derive_digest_exec(proof, specs, prefix, path, value);
    let expected = be8_vec(digest);
    if crate::codec::bytes_eq(&root.bytes, &expected) {
        Ok(())
    } else {
        Err(Error::VerificationFailure)
    }
}

/// The leaf record an absence proof commits to: the bracketing pair of
/// adjacent keys, length-delimited so the pair is unambiguous.
pub open spec fn absence_leaf_value(left: Seq<u8>, right: Seq<u8>) -> Seq<u8> {
    crate::codec::delimited(left) + crate::codec::delimited(right)
}

/// The verification outcome for a non-membership check: the shape cascade,
/// the bracketing of the missing key by the adjacent pair, then the digest
/// comparison against the root.
pub open spec fn spec_verify_non_membership(
    root: CommitmentRoot,
    proof: CommitmentProof,
    specs: Seq<ProofSpec>,
    prefix: CommitmentPrefix,
    path: CommitmentPath,
) -> Result<(), Error> {
    if root.bytes@.len() == 0 {
        Err(Error::EmptyMerkleRoot)
    } else if proof.layers@.len() == 0 {
        Err(Error::EmptyMerkleProof)
    } else if prefix.bytes@.len() == 0 {
        Err(Error::EmptyCommitmentPrefix)
    } else if proof.layers@.len() != specs.len() {
        Err(Error::NumberOfSpecsMismatch)
    } else if path.keys@.len() + 1 != proof.layers@.len() {
        Err(Error::NumberOfKeysMismatch)
    } else if !(proof.leaf is Absence) {
        Err(Error::InvalidMerkleProof)
    } else {
        let left = proof.leaf->Absence_left_key@;
        let right = proof.leaf->Absence_right_key@;
        let leaf_key = composite_keys(prefix, path)[proof.layers@.len() - 1];
        if !(bytes_lt(left, leaf_key) && bytes_lt(leaf_key, right)) {
            Err(Error::VerificationFailure)
        } else if root.bytes@ != be8(
            derived_digest(
                specs,
                proof.layers@,
                composite_keys(prefix, path),
                absence_leaf_value(left, right),
            ),
        ) {
            Err(Error::VerificationFailure)
        } else {
            Ok(())
        }
    }
}

/// Verifies that the composite key `prefix ++ path` is absent beneath
/// `root`: the innermost layer must attest an adjacent pair of keys that
/// brackets the missing one.
pub fn verify_non_membership(
    root: &CommitmentRoot,
    proof: &CommitmentProof,
    specs: &Vec<ProofSpec>,
    prefix: &CommitmentPrefix,
    path: &CommitmentPath,
) -> (r: Result<(), Error>)
    ensures
        r == spec_verify_non_membership(*root, *proof, specs@, *prefix, *path),
{
    if root.bytes.len() == 0 {
        return Err(Error::EmptyMerkleRoot);
    }
    if proof.layers.len() == 0 {
        return Err(Error::EmptyMerkleProof);
    }
    if prefix.bytes.len() == 0 {
        return Err(Error::EmptyCommitmentPrefix);
    }
    if proof.layers.len() != specs.len() {
        return Err(Error::NumberOfSpecsMismatch);
    }
    if path.keys.len() != proof.layers.len() - 1 {
        return Err(Error::NumberOfKeysMismatch);
    }
    let (left, right) = match &proof.leaf {
        LeafProof::Membership => {
            return Err(Error::InvalidMerkleProof);
        },
        LeafProof::Absence { left_key, right_key } => (left_key, right_key),
    };
    let l = proof.layers.len();
    let leaf_key: &Vec<u8> = if l == 1 {
        &prefix.bytes
    } else {
        &path.keys[l - 2]
    };
    proof {
        assert(composite_keys(*prefix, *path)[l - 1] == leaf_key@);
    }
    if !(bytes_lt_exec(left, leaf_key) && bytes_lt_exec(leaf_key, right)) {
        return Err(Error::VerificationFailure);
    }
    let mut leaf_value: Vec<u8> = Vec::new();
    crate::codec::push_delimited(&mut leaf_value, left);
    crate::codec::push_delimited(&mut leaf_value, right);
    proof {
        assert(leaf_value@ =~= absence_leaf_value(left@, right@));
    }
    let digest = derive_digest_exec(proof, specs, prefix, path, &leaf_value);
    let expected = be8_vec(digest);
    if crate::codec::bytes_eq(&root.bytes, &expected) {
        Ok(())
    } else {
        Err(Error::VerificationFailure)
    }
}

/// Builds the only root under which this proof accepts this value: the
/// prover-side counterpart of `verify_membership`.
pub fn commit_root(
    proof: &CommitmentProof,
    specs: &Vec<ProofSpec>,
    prefix: &CommitmentPrefix,
    path: &CommitmentPath,
    value: &Vec<u8>,
) -> (r: Result<CommitmentRoot, Error>)
    ensures
        (proof_shape_ok(*proof, specs@, *prefix, *path) && prefix.bytes@.len() > 0 && value@.len()
            > 0 && proof.leaf is Membership) <==> r is Ok,
        r matches Ok(root) ==> spec_verify_membership(
            root,
            *proof,
            specs@,
            *prefix,
            *path,
            value@,
        ) == Ok::<(), Error>(()),
{
    if proof.layers.len() == 0 {
        return Err(Error::EmptyMerkleProof);
    }
    if prefix.bytes.len() == 0 {
        return Err(Error::EmptyCommitmentPrefix);
    }
    if value.len() == 0 {
        return Err(Error::EmptyVerifiedValue);
    }
    if proof.layers.len() != specs.len() {
        return Err(Error::NumberOfSpecsMismatch);
    }
    if path.keys.len() != proof.layers.len() - 1 {
        return Err(Error::NumberOfKeysMismatch);
    }
    match &proof.leaf {
        LeafProof::Membership => {},
        LeafProof::Absence { .. } => {
            return Err(Error::InvalidMerkleProof);
        },
    }
    let digest = derive_digest_exec(proof, specs, prefix, path, value);
    Ok(CommitmentRoot { bytes: be8_vec(digest) })
}

/// Builds the only root under which this proof attests the composite key
/// absent: the prover-side counterpart of `verify_non_membership`.
pub fn commit_absence_root(
    proof: &CommitmentProof,
    specs: &Vec<ProofSpec>,
    prefix: &CommitmentPrefix,
    path: &CommitmentPath,
) -> (r: Result<CommitmentRoot, Error>)
    ensures
        r matches Ok(root) ==> spec_verify_non_membership(root, *proof, specs@, *prefix, *path)
            == Ok::<(), Error>(()),
{
    if proof.layers.len() == 0 {
        return Err(Error::EmptyMerkleProof);
    }
    if prefix.bytes.len() == 0 {
        return Err(Error::EmptyCommitmentPrefix);
    }
    if proof.layers.len() != specs.len() {
        return Err(Error::NumberOfSpecsMismatch);
    }
    if path.keys.len() != proof.layers.len() - 1 {
        return Err(Error::NumberOfKeysMismatch);
    }
    let (left, right) = match &proof.leaf {
        LeafProof::Membership => {
            return Err(Error::InvalidMerkleProof);
        },
        LeafProof::Absence { left_key, right_key } => (left_key, right_key),
    };
    let l = proof.layers.len();
    let leaf_key: &Vec<u8> = if l == 1 {
        &prefix.bytes
    } else {
        &path.keys[l - 2]
    };
    proof {
        assert(composite_keys(*prefix, *path)[l - 1] == leaf_key@);
    }
    if !(bytes_lt_exec(left, leaf_key) && bytes_lt_exec(leaf_key, right)) {
        return Err(Error::VerificationFailure);
    }
    let mut leaf_value: Vec<u8> = Vec::new();
    crate::codec::push_delimited(&mut leaf_value, left);
    crate::codec::push_delimited(&mut leaf_value, right);
    proof {
        assert(leaf_value@ =~= absence_leaf_value(left@, right@));
    }
    let digest = derive_digest_exec(proof, specs, prefix, path, &leaf_value);
    Ok(CommitmentRoot { bytes: be8_vec(digest) })
}

/// Commitment-proof soundness against root tampering: a membership check
/// that accepts under one root rejects, with a verification failure, under
/// any other non-empty root — in particular one with any byte flipped.
pub proof fn lemma_root_flip_fails(
    root: CommitmentRoot,
    other: CommitmentRoot,
    proof: CommitmentProof,
    specs: Seq<ProofSpec>,
    prefix: CommitmentPrefix,
    path: CommitmentPath,
    value: Seq<u8>,
)
    requires
        spec_verify_membership(root, proof, specs, prefix, path, value) == Ok::<(), Error>(()),
        other.bytes@ != root.bytes@,
        other.bytes@.len() > 0,
    ensures
        spec_verify_membership(other, proof, specs, prefix, path, value) == Err::<(), Error>(
            Error::VerificationFailure,
        ),
{
}

/// A membership check pins the root: the same proof, path and value accept
/// under exactly one root.
pub proof fn lemma_membership_root_unique(
    root1: CommitmentRoot,
    root2: CommitmentRoot,
    proof: CommitmentProof,
    specs: Seq<ProofSpec>,
    prefix: CommitmentPrefix,
    path: CommitmentPath,
    value: Seq<u8>,
)
    requires
        spec_verify_membership(root1, proof, specs, prefix, path, value) == Ok::<(), Error>(()),
        spec_verify_membership(root2, proof, specs, prefix, path, value) == Ok::<(), Error>(()),
    ensures
        root1.bytes@ == root2.bytes@,
{
}

} // verus!
