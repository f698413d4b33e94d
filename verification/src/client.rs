//! Client state machine: one object per tracked counterparty chain, holding
//! the latest verified height and consensus root. Headers advance it
//! monotonically while it is active; proven misbehaviour freezes it forever.

use vstd::prelude::*;

use crate::client_error::ClientError;
use crate::commitment::{
    spec_verify_membership, verify_membership, CommitmentPath, CommitmentPrefix, CommitmentProof,
    CommitmentRoot, ProofSpec,
};
use crate::header::MockHeader;
use crate::height::Height;
use crate::timestamp::Timestamp;

verus! {

/// The fraction of the counterparty validator set that must have signed for
/// a header to be trusted.
#[derive(Clone, Copy, Debug, PartialEq, Eq, Structural)]
pub struct TrustLevel {
    pub numerator: u64,
    pub denominator: u64,
}

/// The verified summary of a counterparty chain, with its trust parameters.
/// Mutated only by successful header verification, which advances the height
/// monotonically, or by proven misbehaviour, which freezes it irreversibly.
#[derive(Clone, Debug, PartialEq, Eq)]
pub struct ClientState {
    pub trust_level: TrustLevel,
    /// Maximum age, in nanoseconds, of the trusted consensus state still
    /// eligible for trust without re-verification.
    pub trusting_period: u64,
    pub unbonding_period: u64,
    /// How far, in nanoseconds, a header's clock may run ahead of local time.
    pub max_clock_drift: u64,
    pub latest_height: Height,
    pub latest_timestamp: Timestamp,
    pub root: CommitmentRoot,
    pub frozen: bool,
}

/// Two headers that together prove the counterparty equivocated: either two
/// different headers at one height, or time running backwards across
/// increasing heights.
#[derive(Clone, Debug, PartialEq, Eq)]
pub struct Misbehaviour {
    pub header1: MockHeader,
    pub header2: MockHeader,
}

/// Whether the evidence shows a real conflict.
pub open spec fn spec_evidence_of_conflict(ev: Misbehaviour) -> bool {
    ||| (ev.header1.height == ev.header2.height && ev.header1 != ev.header2)
    ||| (ev.header1.height.spec_lt(ev.header2.height) && ev.header1.timestamp.spec_is_set()
        && ev.header2.timestamp.spec_is_set() && ev.header2.timestamp.nanos
        < ev.header1.timestamp.nanos)
}

impl ClientState {
    /// Structural soundness of a client state.
    pub open spec fn well_formed(self) -> bool {
        &&& self.latest_height.well_formed()
        &&& self.root.bytes@.len() > 0
        &&& self.trust_level.denominator > 0
        &&& self.trust_level.numerator <= self.trust_level.denominator
    }

    /// The trusted consensus state is too old to extend, measured at `now`.
    pub open spec fn spec_outside_trusting_period(self, now: Timestamp) -> bool {
        now.spec_is_set() && self.latest_timestamp.spec_is_set() && now.nanos
            > self.latest_timestamp.nanos + self.trusting_period
    }

    /// The header's clock runs further ahead of local time than the
    /// configured drift bound allows.
    pub open spec fn spec_drift_exceeded(self, header: MockHeader, now: Timestamp) -> bool {
        header.timestamp.spec_is_set() && now.spec_is_set() && header.timestamp.nanos > now.nanos
            + self.max_clock_drift
    }

    /// The outcome of a header update, as a single predicate: frozen clients
    /// reject everything; the height must strictly advance; the trusted
    /// state must still be within its trusting period at `now`; the header's
    /// clock must be within the drift bound; and the new root must be proven
    /// under the currently trusted root. On success only the verified
    /// height, timestamp and root change, and the client stays active.
    pub open spec fn spec_update_header(
        self,
        header: MockHeader,
        new_root: CommitmentRoot,
        proof: CommitmentProof,
        specs: Seq<ProofSpec>,
        prefix: CommitmentPrefix,
        path: CommitmentPath,
        now: Timestamp,
    ) -> Result<ClientState, ClientError> {
        if self.frozen {
            Err(ClientError::ClientFrozen)
        } else if !self.latest_height.spec_lt(header.height) {
            Err(
                ClientError::LowHeaderHeight {
                    header_height: header.height,
                    latest_height: self.latest_height,
                },
            )
        } else if self.spec_outside_trusting_period(now) {
            Err(ClientError::HeaderNotWithinTrustPeriod)
        } else if self.spec_drift_exceeded(header, now) {
            Err(ClientError::ClockDriftExceeded)
        } else {
            match spec_verify_membership(self.root, proof, specs, prefix, path, new_root.bytes@) {
                Err(e) => Err(ClientError::HeaderVerificationFailure(e)),
                Ok(()) => Ok(
                    ClientState {
                        latest_height: header.height,
                        latest_timestamp: header.timestamp,
                        root: new_root,
                        ..self
                    },
                ),
            }
        }
    }

    /// Verifies a header against the trusted state and, on success, returns
    /// the advanced client state; on any failure the state is unchanged (the
    /// call returns only an error, and never freezes the client).
    pub fn update_header(
        &self,
        header: MockHeader,
        new_root: CommitmentRoot,
        proof: &CommitmentProof,
        specs: &Vec<ProofSpec>,
        prefix: &CommitmentPrefix,
        path: &CommitmentPath,
        now: Timestamp,
    ) -> (r: Result<ClientState, ClientError>)
        ensures
            r == self.spec_update_header(header, new_root, *proof, specs@, *prefix, *path, now),
            r matches Ok(next) ==> {
                &&& self.latest_height.spec_lt(next.latest_height)
                &&& next.latest_height == header.height
                &&& next.latest_timestamp == header.timestamp
                &&& !next.frozen
                &&& !self.frozen
            },
            self.frozen ==> r == Err::<ClientState, ClientError>(ClientError::ClientFrozen),
    {
        if self.frozen {
            return Err(ClientError::ClientFrozen);
        }
        if !self.latest_height.lt(&header.height) {
            return Err(
                ClientError::LowHeaderHeight {
                    header_height: header.height,
                    latest_height: self.latest_height,
                },
            );
        }
        if now.is_set() && self.latest_timestamp.is_set() && now.nanoseconds() as u128
            > self.latest_timestamp.nanoseconds() as u128 + self.trusting_period as u128 {
            return Err(ClientError::HeaderNotWithinTrustPeriod);
        }
        if header.timestamp.is_set() && now.is_set() && header.timestamp.nanoseconds() as u128
            > now.nanoseconds() as u128 + self.max_clock_drift as u128 {
            return Err(ClientError::ClockDriftExceeded);
        }
        match verify_membership(&self.root, proof, specs, prefix, path, &new_root.bytes) {
            Err(e) => Err(ClientError::HeaderVerificationFailure(e)),
            Ok(()) => Ok(
                ClientState {
                    trust_level: self.trust_level,
                    trusting_period: self.trusting_period,
                    unbonding_period: self.unbonding_period,
                    max_clock_drift: self.max_clock_drift,
                    latest_height: header.height,
                    latest_timestamp: header.timestamp,
                    root: new_root,
                    frozen: false,
                },
            ),
        }
    }

    /// The outcome of a misbehaviour check: a frozen client rejects the
    /// call; real conflict evidence freezes the client, changing nothing
    /// else; anything short of proof is rejected with the state unchanged.
    pub open spec fn spec_check_misbehaviour(self, evidence: Misbehaviour) -> Result<
        ClientState,
        ClientError,
    > {
        if self.frozen {
            Err(ClientError::ClientFrozen)
        } else if spec_evidence_of_conflict(evidence) {
            Ok(ClientState { frozen: true, ..self })
        } else {
            Err(ClientError::MisbehaviourNotShown)
        }
    }

    /// Examines conflict evidence and, where it proves misbehaviour, returns
    /// the same client frozen; the transition has no inverse.
    pub fn check_misbehaviour(self, evidence: &Misbehaviour) -> (r: Result<
        ClientState,
        ClientError,
    >)
        ensures
            r == self.spec_check_misbehaviour(*evidence),
            r matches Ok(next) ==> next.frozen && next.latest_height == self.latest_height
                && next.root == self.root,
    {
        if self.frozen {
            return Err(ClientError::ClientFrozen);
        }
        let conflict_same = evidence.header1.height == evidence.header2.height
            && evidence.header1 != evidence.header2;
        let conflict_time = evidence.header1.height.lt(&evidence.header2.height)
            && evidence.header1.timestamp.is_set() && evidence.header2.timestamp.is_set()
            && evidence.header2.timestamp.nanos < evidence.header1.timestamp.nanos;
        if conflict_same || conflict_time {
            Ok(ClientState { frozen: true, ..self })
        } else {
            Err(ClientError::MisbehaviourNotShown)
        }
    }
}

/// Height ordering: every successful update strictly advances the verified
/// height, and replays an older or equal header only into a rejection.
pub proof fn lemma_update_is_monotonic(
    state: ClientState,
    header: MockHeader,
    new_root: CommitmentRoot,
    proof: CommitmentProof,
    specs: Seq<ProofSpec>,
    prefix: CommitmentPrefix,
    path: CommitmentPath,
    now: Timestamp,
)
    ensures
        state.spec_update_header(header, new_root, proof, specs, prefix, path, now) matches Ok(
            next,
        ) ==> state.latest_height.spec_lt(next.latest_height),
        !state.latest_height.spec_lt(header.height) ==> state.spec_update_header(
            header,
            new_root,
            proof,
            specs,
            prefix,
            path,
            now,
        ) is Err,
{
}

/// A freeze is one-way: against a frozen client every header update and
/// every further misbehaviour submission fails, whatever it carries.
pub proof fn lemma_frozen_is_terminal(
    state: ClientState,
    header: MockHeader,
    new_root: CommitmentRoot,
    proof: CommitmentProof,
    specs: Seq<ProofSpec>,
    prefix: CommitmentPrefix,
    path: CommitmentPath,
    now: Timestamp,
    evidence: Misbehaviour,
)
    requires
        state.frozen,
    ensures
        state.spec_update_header(header, new_root, proof, specs, prefix, path, now) == Err::<
            ClientState,
            ClientError,
        >(ClientError::ClientFrozen),
        state.spec_check_misbehaviour(evidence) == Err::<ClientState, ClientError>(
            ClientError::ClientFrozen,
        ),
{
}

/// Freezing is reachable only through proven misbehaviour: a successful
/// header update never freezes, and a successful misbehaviour check always
/// does.
pub proof fn lemma_freeze_only_by_misbehaviour(
    state: ClientState,
    header: MockHeader,
    new_root: CommitmentRoot,
    proof: CommitmentProof,
    specs: Seq<ProofSpec>,
    prefix: CommitmentPrefix,
    path: CommitmentPath,
    now: Timestamp,
    evidence: Misbehaviour,
)
    ensures
        state.spec_update_header(header, new_root, proof, specs, prefix, path, now) matches Ok(
            next,
        ) ==> !next.frozen,
        state.spec_check_misbehaviour(evidence) matches Ok(next) ==> next.frozen,
{
}

} // verus!