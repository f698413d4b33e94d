//! Packet lifecycle controller: per-channel bookkeeping of packet
//! commitments, receipts and acknowledgements, enforcing ordering and
//! exactly-once delivery, and driving the timeout and refund paths.

use vstd::prelude::*;

use crate::client::ClientState;
use crate::codec::bytes_eq;
use crate::commitment;
use crate::commitment::{
    be8, be8_vec, digest_from, domain_seed, spec_verify_membership, spec_verify_non_membership,
    verify_membership, verify_non_membership, CommitmentPath, CommitmentPrefix, CommitmentProof,
    ProofSpec,
};
use crate::height::Height;
use crate::seqmap::SeqMap;
use crate::timestamp::Timestamp;

verus! {

/// State-machine violations and verification failures of the packet
/// lifecycle; each is terminal for its call.
#[derive(Clone, Copy, Debug, PartialEq, Eq, Structural)]
pub enum PacketError {
    /// The channel no longer accepts sends.
    ChannelClosed,
    /// Both timeout fields are unset, or the timeout has already elapsed
    /// locally at send time.
    InvalidTimeout,
    /// An ordered channel was offered a sequence out of turn.
    PacketSequenceOutOfOrder { sequence: u64, next_expected: u64 },
    /// The client tracking the counterparty is frozen.
    FrozenClient,
    /// The packet's timeout has elapsed; a late receive is refused.
    PacketTimedOut,
    /// A timeout was claimed before the counterparty's verified state
    /// reaches the packet's timeout.
    TimeoutNotReached,
    /// No commitment is on record for this sequence.
    PacketCommitmentNotFound { sequence: u64 },
    /// The commitment on record is not the commitment of this packet.
    IncorrectPacketCommitment { sequence: u64 },
    /// A commitment for this sequence already exists.
    PacketCommitmentAlreadyExists { sequence: u64 },
    /// The commitment proof was rejected.
    ProofVerificationFailure(commitment::Error),
}

/// Whether a channel delivers packets strictly in sequence order.
#[derive(Clone, Copy, Debug, PartialEq, Eq, Structural)]
pub enum ChannelOrder {
    Ordered,
    Unordered,
}

/// One packet in flight: its sequence, payload, and timeout bounds. A
/// missing timeout height and an unset timeout timestamp each mean "no bound
/// of that kind".
#[derive(Clone, Debug, PartialEq, Eq)]
pub struct Packet {
    pub sequence: u64,
    pub data: Vec<u8>,
    pub timeout_height: Option<Height>,
    pub timeout_timestamp: Timestamp,
}

/// What a successful receive reports: whether this call was a replay of an
/// already-received sequence (a no-op, whose application callback must not
/// run again).
#[derive(Clone, Copy, Debug, PartialEq, Eq, Structural)]
pub struct RecvOutcome {
    pub replay: bool,
}

/// The packet has timed out as measured against the given height and time.
pub open spec fn spec_timed_out(p: Packet, h: Height, t: Timestamp) -> bool {
    ||| (p.timeout_height matches Some(th) && !h.spec_lt(th))
    ||| (p.timeout_timestamp.spec_is_set() && t.spec_is_set() && t.nanos
        >= p.timeout_timestamp.nanos)
}

/// Decides `spec_timed_out`.
pub fn timed_out(p: &Packet, h: &Height, t: &Timestamp) -> (r: bool)
    ensures
        r == spec_timed_out(*p, *h, *t),
{
    let by_height = match &p.timeout_height {
        Some(th) => !h.lt(th),
        None => false,
    };
    let by_time = p.timeout_timestamp.is_set() && t.is_set() && t.nanoseconds()
        >= p.timeout_timestamp.nanoseconds();
    by_height || by_time
}

/// The revision number the commitment binds for the timeout height.
pub open spec fn timeout_rn(p: Packet) -> u64 {
    match p.timeout_height {
        None => 0u64,
        Some(h) => h.revision_number,
    }
}

/// The revision height the commitment binds for the timeout height.
pub open spec fn timeout_rh(p: Packet) -> u64 {
    match p.timeout_height {
        None => 0u64,
        Some(h) => h.revision_height,
    }
}

/// The bytes the packet commitment digests: timeout timestamp, timeout
/// height, and the digest of the payload.
pub open spec fn commitment_input(p: Packet) -> Seq<u8> {
    be8(p.timeout_timestamp.nanos as nat) + be8(timeout_rn(p) as nat) + be8(timeout_rh(p) as nat)
        + be8(digest_from(domain_seed(3), p.data@))
}

/// The commitment the sending chain stores for a packet: the digest of
/// (timeout height, timeout timestamp, payload digest); its existence is the
/// only fact a counterparty proof can attest to.
pub open spec fn spec_packet_commitment(p: Packet) -> Seq<u8> {
    be8(digest_from(domain_seed(2), commitment_input(p)))
}

/// Computes the packet commitment.
pub fn packet_commitment_vec(p: &Packet) -> (v: Vec<u8>)
    ensures
        v@ == spec_packet_commitment(*p),
{
    let data_digest = crate::commitment::digest_update(
        crate::commitment::domain_seed_exec(3),
        &p.data,
    );
    let (rn, rh) = match &p.timeout_height {
        None => (0u64, 0u64),
        Some(h) => (h.revision_number, h.revision_height),
    };
    let mut input = be8_vec(p.timeout_timestamp.nanos);
    let rn_bytes = be8_vec(rn);
    let rh_bytes = be8_vec(rh);
    let dd_bytes = be8_vec(data_digest);
    crate::codec::push_slice(&mut input, &rn_bytes);
    crate::codec::push_slice(&mut input, &rh_bytes);
    crate::codec::push_slice(&mut input, &dd_bytes);
    proof {
        assert(input@ =~= commitment_input(*p));
    }
    let c = crate::commitment::digest_update(crate::commitment::domain_seed_exec(2), &input);
    be8_vec(c)
}

/// The marker a receipt records; its content carries no information beyond
/// presence.
pub open spec fn receipt_value() -> Seq<u8> {
    seq![1u8]
}

/// The next send/receive/acknowledge counter after a sequence is consumed;
/// the counter stays put at the top of the range.
pub open spec fn bump(n: u64) -> u64 {
    if n < 0xffffffffffffffff {
        (n + 1) as u64
    } else {
        n
    }
}

fn bump_exec(n: u64) -> (r: u64)
    ensures
        r == bump(n),
{
    if n < 0xffffffffffffffff {
        n + 1
    } else {
        n
    }
}

/// The mathematical state of one channel endpoint: what the exec store
/// stands for.
pub struct StoreModel {
    pub order: ChannelOrder,
    pub closed: bool,
    pub next_sequence_send: u64,
    pub next_sequence_recv: u64,
    pub next_sequence_ack: u64,
    pub commitments: Map<u64, Seq<u8>>,
    pub receipts: Map<u64, Seq<u8>>,
    pub acks: Map<u64, Seq<u8>>,
}

/// Per-channel packet bookkeeping: commitments written on send and closed by
/// acknowledgement or timeout, receipts written once on first receive, and
/// the three sequence counters.
#[derive(Clone, Debug, PartialEq, Eq)]
pub struct PacketStore {
    pub order: ChannelOrder,
    pub closed: bool,
    pub next_sequence_send: u64,
    pub next_sequence_recv: u64,
    pub next_sequence_ack: u64,
    pub commitments: SeqMap,
    pub receipts: SeqMap,
    pub acks: SeqMap,
}

impl PacketStore {
    /// The mathematical state this store stands for.
    pub open spec fn view(self) -> StoreModel {
        StoreModel {
            order: self.order,
            closed: self.closed,
            next_sequence_send: self.next_sequence_send,
            next_sequence_recv: self.next_sequence_recv,
            next_sequence_ack: self.next_sequence_ack,
            commitments: self.commitments.view(),
            receipts: self.receipts.view(),
            acks: self.acks.view(),
        }
    }

    pub open spec fn well_formed(self) -> bool {
        self.commitments.well_formed() && self.receipts.well_formed() && self.acks.well_formed()
    }

    /// A fresh open channel endpoint with all counters at one.
    pub fn new(order: ChannelOrder) -> (r: PacketStore)
        ensures
            r.view() == (StoreModel {
                order,
                closed: false,
                next_sequence_send: 1u64,
                next_sequence_recv: 1u64,
                next_sequence_ack: 1u64,
                commitments: Map::<u64, Seq<u8>>::empty(),
                receipts: Map::<u64, Seq<u8>>::empty(),
                acks: Map::<u64, Seq<u8>>::empty(),
            }),
            r.well_formed(),
    {
        let r = PacketStore {
            order,
            closed: false,
            next_sequence_send: 1,
            next_sequence_recv: 1,
            next_sequence_ack: 1,
            commitments: SeqMap::new(),
            receipts: SeqMap::new(),
            acks: SeqMap::new(),
        };
        proof {
            assert(r.view().commitments =~= Map::<u64, Seq<u8>>::empty());
            assert(r.view().receipts =~= Map::<u64, Seq<u8>>::empty());
            assert(r.view().acks =~= Map::<u64, Seq<u8>>::empty());
        }
        r
    }
}

/// The outcome of a send: the cascade of checks, then the commitment write.
/// For ordered channels sequences must be issued strictly in order; a
/// timeout must exist and must not already have elapsed locally.
pub open spec fn spec_send_packet(m: StoreModel, p: Packet, lh: Height, lt: Timestamp) -> (
    Result<(), PacketError>,
    StoreModel,
) {
    if m.closed {
        (Err(PacketError::ChannelClosed), m)
    } else if p.timeout_height is None && !p.timeout_timestamp.spec_is_set() {
        (Err(PacketError::InvalidTimeout), m)
    } else if spec_timed_out(p, lh, lt) {
        (Err(PacketError::InvalidTimeout), m)
    } else if m.order == ChannelOrder::Ordered && p.sequence != m.next_sequence_send {
        (
            Err(
                PacketError::PacketSequenceOutOfOrder {
                    sequence: p.sequence,
                    next_expected: m.next_sequence_send,
                },
            ),
            m,
        )
    } else if m.commitments.contains_key(p.sequence) {
        (Err(PacketError::PacketCommitmentAlreadyExists { sequence: p.sequence }), m)
    } else {
        (
            Ok(()),
            StoreModel {
                commitments: m.commitments.insert(p.sequence, spec_packet_commitment(p)),
                next_sequence_send: if m.order == ChannelOrder::Ordered {
                    bump(m.next_sequence_send)
                } else {
                    m.next_sequence_send
                },
                ..m
            },
        )
    }
}

/// The outcome of a receive: frozen client, closed channel and elapsed
/// timeout fail first — timeout precedence means a late receive can never
/// succeed; a sequence already received is a no-op success that must not
/// re-run the application callback; ordered channels then demand the exact
/// next sequence; finally the sender's commitment must be proven under the
/// client's verified root, and a receipt is recorded.
pub open spec fn spec_recv_packet(
    m: StoreModel,
    client: ClientState,
    proof: CommitmentProof,
    specs: Seq<ProofSpec>,
    prefix: CommitmentPrefix,
    path: CommitmentPath,
    p: Packet,
    lh: Height,
    lt: Timestamp,
) -> (Result<RecvOutcome, PacketError>, StoreModel) {
    if client.frozen {
        (Err(PacketError::FrozenClient), m)
    } else if m.closed {
        (Err(PacketError::ChannelClosed), m)
    } else if spec_timed_out(p, lh, lt) {
        (Err(PacketError::PacketTimedOut), m)
    } else if m.receipts.contains_key(p.sequence) {
        (Ok(RecvOutcome { replay: true }), m)
    } else if m.order == ChannelOrder::Ordered && p.sequence != m.next_sequence_recv {
        (
            Err(
                PacketError::PacketSequenceOutOfOrder {
                    sequence: p.sequence,
                    next_expected: m.next_sequence_recv,
                },
            ),
            m,
        )
    } else {
        match spec_verify_membership(
            client.root,
            proof,
            specs,
            prefix,
            path,
            spec_packet_commitment(p),
        ) {
            Err(e) => (Err(PacketError::ProofVerificationFailure(e)), m),
            Ok(()) => (
                Ok(RecvOutcome { replay: false }),
                StoreModel {
                    receipts: m.receipts.insert(p.sequence, receipt_value()),
                    next_sequence_recv: if m.order == ChannelOrder::Ordered {
                        bump(m.next_sequence_recv)
                    } else {
                        m.next_sequence_recv
                    },
                    ..m
                },
            ),
        }
    }
}

/// The outcome of an acknowledgement: the packet must still be committed,
/// the commitment must match this packet, ordered channels demand the next
/// acknowledgement sequence, and the counterparty must prove it recorded
/// exactly this acknowledgement; success closes the packet by deleting its
/// commitment.
pub open spec fn spec_acknowledge_packet(
    m: StoreModel,
    client: ClientState,
    proof: CommitmentProof,
    specs: Seq<ProofSpec>,
    prefix: CommitmentPrefix,
    path: CommitmentPath,
    p: Packet,
    ack: Seq<u8>,
) -> (Result<(), PacketError>, StoreModel) {
    if client.frozen {
        (Err(PacketError::FrozenClient), m)
    } else if !m.commitments.contains_key(p.sequence) {
        (Err(PacketError::PacketCommitmentNotFound { sequence: p.sequence }), m)
    } else if m.commitments[p.sequence] != spec_packet_commitment(p) {
        (Err(PacketError::IncorrectPacketCommitment { sequence: p.sequence }), m)
    } else if m.order == ChannelOrder::Ordered && p.sequence != m.next_sequence_ack {
        (
            Err(
                PacketError::PacketSequenceOutOfOrder {
                    sequence: p.sequence,
                    next_expected: m.next_sequence_ack,
                },
            ),
            m,
        )
    } else {
        match spec_verify_membership(client.root, proof, specs, prefix, path, ack) {
            Err(e) => (Err(PacketError::ProofVerificationFailure(e)), m),
            Ok(()) => (
                Ok(()),
                StoreModel {
                    commitments: m.commitments.remove(p.sequence),
                    next_sequence_ack: if m.order == ChannelOrder::Ordered {
                        bump(m.next_sequence_ack)
                    } else {
                        m.next_sequence_ack
                    },
                    ..m
                },
            ),
        }
    }
}

/// The outcome of a timeout claim: the packet must still be committed and
/// match, its timeout must have elapsed as measured by the client's verified
/// height and time, and the counterparty must prove the receipt absent;
/// success closes the packet by deleting its commitment, freeing the refund
/// path.
pub open spec fn spec_timeout_packet(
    m: StoreModel,
    client: ClientState,
    proof: CommitmentProof,
    specs: Seq<ProofSpec>,
    prefix: CommitmentPrefix,
    path: CommitmentPath,
    p: Packet,
) -> (Result<(), PacketError>, StoreModel) {
    if client.frozen {
        (Err(PacketError::FrozenClient), m)
    } else if !m.commitments.contains_key(p.sequence) {
        (Err(PacketError::PacketCommitmentNotFound { sequence: p.sequence }), m)
    } else if m.commitments[p.sequence] != spec_packet_commitment(p) {
        (Err(PacketError::IncorrectPacketCommitment { sequence: p.sequence }), m)
    } else if !spec_timed_out(p, client.latest_height, client.latest_timestamp) {
        (Err(PacketError::TimeoutNotReached), m)
    } else {
        match spec_verify_non_membership(client.root, proof, specs, prefix, path) {
            Err(e) => (Err(PacketError::ProofVerificationFailure(e)), m),
            Ok(()) => (Ok(()), StoreModel { commitments: m.commitments.remove(p.sequence), ..m }),
        }
    }
}

impl PacketStore {
    /// Computes and records the commitment for an outbound packet, as
    /// `spec_send_packet` says; on failure the store is unchanged.
    pub fn send_packet(&mut self, p: &Packet, local_height: Height, local_time: Timestamp) -> (r:
        Result<(), PacketError>)
        requires
            old(self).well_formed(),
        ensures
            spec_send_packet(old(self).view(), *p, local_height, local_time) == (
                r,
                final(self).view(),
            ),
            final(self).well_formed(),
    {
        if self.closed {
            return Err(PacketError::ChannelClosed);
        }
        let no_height = match &p.timeout_height {
            None => true,
            Some(_) => false,
        };
        if no_height && !p.timeout_timestamp.is_set() {
            return Err(PacketError::InvalidTimeout);
        }
        if timed_out(p, &local_height, &local_time) {
            return Err(PacketError::InvalidTimeout);
        }
        if self.order == ChannelOrder::Ordered && p.sequence != self.next_sequence_send {
            return Err(
                PacketError::PacketSequenceOutOfOrder {
                    sequence: p.sequence,
                    next_expected: self.next_sequence_send,
                },
            );
        }
        if self.commitments.contains_key(p.sequence) {
            return Err(PacketError::PacketCommitmentAlreadyExists { sequence: p.sequence });
        }
        let commitment_bytes = packet_commitment_vec(p);
        self.commitments.insert(p.sequence, commitment_bytes);
        if self.order == ChannelOrder::Ordered {
            self.next_sequence_send = bump_exec(self.next_sequence_send);
        }
        Ok(())
    }

    /// Verifies an inbound packet against the client's verified root and
    /// records its receipt, as `spec_recv_packet` says: timeout wins over
    /// everything but a frozen client or closed channel, and a replayed
    /// sequence is a no-op success whose outcome says so.
    pub fn recv_packet(
        &mut self,
        client: &ClientState,
        proof: &CommitmentProof,
        specs: &Vec<ProofSpec>,
        prefix: &CommitmentPrefix,
        path: &CommitmentPath,
        p: &Packet,
        local_height: Height,
        local_time: Timestamp,
    ) -> (r: Result<RecvOutcome, PacketError>)
        requires
            old(self).well_formed(),
        ensures
            spec_recv_packet(
                old(self).view(),
                *client,
                *proof,
                specs@,
                *prefix,
                *path,
                *p,
                local_height,
                local_time,
            ) == (r, final(self).view()),
            final(self).well_formed(),
    {
        if client.frozen {
            return Err(PacketError::FrozenClient);
        }
        if self.closed {
            return Err(PacketError::ChannelClosed);
        }
        if timed_out(p, &local_height, &local_time) {
            return Err(PacketError::PacketTimedOut);
        }
        if self.receipts.contains_key(p.sequence) {
            return Ok(RecvOutcome { replay: true });
        }
        if self.order == ChannelOrder::Ordered && p.sequence != self.next_sequence_recv {
            return Err(
                PacketError::PacketSequenceOutOfOrder {
                    sequence: p.sequence,
                    next_expected: self.next_sequence_recv,
                },
            );
        }
        let commitment_bytes = packet_commitment_vec(p);
        match verify_membership(&client.root, proof, specs, prefix, path, &commitment_bytes) {
            Err(e) => Err(PacketError::ProofVerificationFailure(e)),
            Ok(()) => {
                let mut marker: Vec<u8> = Vec::new();
                marker.push(1);
                proof {
                    assert(marker@ =~= receipt_value());
                }
                self.receipts.insert(p.sequence, marker);
                if self.order == ChannelOrder::Ordered {
                    self.next_sequence_recv = bump_exec(self.next_sequence_recv);
                }
                Ok(RecvOutcome { replay: false })
            },
        }
    }

    /// Verifies the counterparty's acknowledgement of a sent packet and
    /// closes the packet, as `spec_acknowledge_packet` says.
    pub fn acknowledge_packet(
        &mut self,
        client: &ClientState,
        proof: &CommitmentProof,
        specs: &Vec<ProofSpec>,
        prefix: &CommitmentPrefix,
        path: &CommitmentPath,
        p: &Packet,
        ack: &Vec<u8>,
    ) -> (r: Result<(), PacketError>)
        requires
            old(self).well_formed(),
        ensures
            spec_acknowledge_packet(
                old(self).view(),
                *client,
                *proof,
                specs@,
                *prefix,
                *path,
                *p,
                ack@,
            ) == (r, final(self).view()),
            final(self).well_formed(),
    {
        if client.frozen {
            return Err(PacketError::FrozenClient);
        }
        let expected = packet_commitment_vec(p);
        let matches_commitment: bool = match self.commitments.get(p.sequence) {
            None => {
                return Err(PacketError::PacketCommitmentNotFound { sequence: p.sequence });
            },
            Some(stored) => bytes_eq(stored, &expected),
        };
        if !matches_commitment {
            return Err(PacketError::IncorrectPacketCommitment { sequence: p.sequence });
        }
        if self.order == ChannelOrder::Ordered && p.sequence != self.next_sequence_ack {
            return Err(
                PacketError::PacketSequenceOutOfOrder {
                    sequence: p.sequence,
                    next_expected: self.next_sequence_ack,
                },
            );
        }
        match verify_membership(&client.root, proof, specs, prefix, path, ack) {
            Err(e) => Err(PacketError::ProofVerificationFailure(e)),
            Ok(()) => {
                self.commitments.remove(p.sequence);
                if self.order == ChannelOrder::Ordered {
                    self.next_sequence_ack = bump_exec(self.next_sequence_ack);
                }
                Ok(())
            },
        }
    }

    /// Verifies that the counterparty never received the packet by the time
    /// its timeout elapsed, and closes the packet for refund, as
    /// `spec_timeout_packet` says.
    pub fn timeout_packet(
        &mut self,
        client: &ClientState,
        proof: &CommitmentProof,
        specs: &Vec<ProofSpec>,
        prefix: &CommitmentPrefix,
        path: &CommitmentPath,
        p: &Packet,
    ) -> (r: Result<(), PacketError>)
        requires
            old(self).well_formed(),
        ensures
            spec_timeout_packet(old(self).view(), *client, *proof, specs@, *prefix, *path, *p) == (
                r,
                final(self).view(),
            ),
            final(self).well_formed(),
    {
        if client.frozen {
            return Err(PacketError::FrozenClient);
        }
        let expected = packet_commitment_vec(p);
        let matches_commitment: bool = match self.commitments.get(p.sequence) {
            None => {
                return Err(PacketError::PacketCommitmentNotFound { sequence: p.sequence });
            },
            Some(stored) => bytes_eq(stored, &expected),
        };
        if !matches_commitment {
            return Err(PacketError::IncorrectPacketCommitment { sequence: p.sequence });
        }
        if !timed_out(p, &client.latest_height, &client.latest_timestamp) {
            return Err(PacketError::TimeoutNotReached);
        }
        match verify_non_membership(&client.root, proof, specs, prefix, path) {
            Err(e) => Err(PacketError::ProofVerificationFailure(e)),
            Ok(()) => {
                self.commitments.remove(p.sequence);
                Ok(())
            },
        }
    }
}

/// Timeout precedence: when a packet's timeout has elapsed locally, a
/// receive fails with a timeout — even if a valid proof is in hand — as long
/// as the client is active and the channel open; it never silently succeeds.
pub proof fn lemma_timeout_precedence(
    m: StoreModel,
    client: ClientState,
    proof: CommitmentProof,
    specs: Seq<ProofSpec>,
    prefix: CommitmentPrefix,
    path: CommitmentPath,
    p: Packet,
    lh: Height,
    lt: Timestamp,
)
    requires
        !client.frozen,
        !m.closed,
        spec_timed_out(p, lh, lt),
    ensures
        spec_recv_packet(m, client, proof, specs, prefix, path, p, lh, lt) == (
            Err::<RecvOutcome, PacketError>(PacketError::PacketTimedOut),
            m,
        ),
{
}

/// Receive idempotence: after a fresh successful receive, receiving the same
/// sequence again with the same arguments succeeds as a replay and changes
/// nothing — the receipt is written exactly once and the application
/// callback is not re-run.
pub proof fn lemma_recv_idempotent(
    m: StoreModel,
    client: ClientState,
    proof: CommitmentProof,
    specs: Seq<ProofSpec>,
    prefix: CommitmentPrefix,
    path: CommitmentPath,
    p: Packet,
    lh: Height,
    lt: Timestamp,
)
    requires
        spec_recv_packet(m, client, proof, specs, prefix, path, p, lh, lt).0 == Ok::<
            RecvOutcome,
            PacketError,
        >(RecvOutcome { replay: false }),
    ensures
        spec_recv_packet(
            spec_recv_packet(m, client, proof, specs, prefix, path, p, lh, lt).1,
            client,
            proof,
            specs,
            prefix,
            path,
            p,
            lh,
            lt,
        ) == (
            Ok::<RecvOutcome, PacketError>(RecvOutcome { replay: true }),
            spec_recv_packet(m, client, proof, specs, prefix, path, p, lh, lt).1,
        ),
{
    let m1 = spec_recv_packet(m, client, proof, specs, prefix, path, p, lh, lt).1;
    assert(m1.receipts.contains_key(p.sequence));
}

/// Ordered-channel enforcement, rejection half: on an open ordered channel
/// with an active client, a packet that is not timed out, not yet received,
/// and not the next expected sequence fails with an ordering error and
/// changes nothing.
pub proof fn lemma_ordered_rejects_out_of_order(
    m: StoreModel,
    client: ClientState,
    proof: CommitmentProof,
    specs: Seq<ProofSpec>,
    prefix: CommitmentPrefix,
    path: CommitmentPath,
    p: Packet,
    lh: Height,
    lt: Timestamp,
)
    requires
        m.order == ChannelOrder::Ordered,
        !client.frozen,
        !m.closed,
        !spec_timed_out(p, lh, lt),
        !m.receipts.contains_key(p.sequence),
        p.sequence != m.next_sequence_recv,
    ensures
        spec_recv_packet(m, client, proof, specs, prefix, path, p, lh, lt) == (
            Err::<RecvOutcome, PacketError>(
                PacketError::PacketSequenceOutOfOrder {
                    sequence: p.sequence,
                    next_expected: m.next_sequence_recv,
                },
            ),
            m,
        ),
{
}

/// Ordered-channel enforcement, progress half: once the expected sequence
/// has been received, the successor sequence is the new expectation, and a
/// packet carrying it — valid in the same ways — is received fresh.
pub proof fn lemma_ordered_accepts_successor(
    m: StoreModel,
    client: ClientState,
    proof1: CommitmentProof,
    proof2: CommitmentProof,
    specs: Seq<ProofSpec>,
    prefix: CommitmentPrefix,
    path1: CommitmentPath,
    path2: CommitmentPath,
    p1: Packet,
    p2: Packet,
    lh: Height,
    lt: Timestamp,
)
    requires
        m.order == ChannelOrder::Ordered,
        spec_recv_packet(m, client, proof1, specs, prefix, path1, p1, lh, lt).0 == Ok::<
            RecvOutcome,
            PacketError,
        >(RecvOutcome { replay: false }),
        p1.sequence < 0xffffffffffffffff,
        p2.sequence == p1.sequence + 1,
        !m.receipts.contains_key(p2.sequence),
        !spec_timed_out(p2, lh, lt),
        spec_verify_membership(
            client.root,
            proof2,
            specs,
            prefix,
            path2,
            spec_packet_commitment(p2),
        ) == Ok::<(), commitment::Error>(()),
    ensures
        spec_recv_packet(
            spec_recv_packet(m, client, proof1, specs, prefix, path1, p1, lh, lt).1,
            client,
            proof2,
            specs,
            prefix,
            path2,
            p2,
            lh,
            lt,
        ).0 == Ok::<RecvOutcome, PacketError>(RecvOutcome { replay: false }),
{
    let m1 = spec_recv_packet(m, client, proof1, specs, prefix, path1, p1, lh, lt).1;
    assert(p1.sequence == m.next_sequence_recv);
    assert(m1.next_sequence_recv == p2.sequence);
    assert(!m1.receipts.contains_key(p2.sequence));
}

} // verus!