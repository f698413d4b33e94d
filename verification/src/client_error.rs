//! Errors raised by the client state machine and header decoding.

use vstd::prelude::*;

use crate::commitment;
use crate::height::Height;

verus! {

#[derive(Clone, Debug, PartialEq, Eq)]
pub enum ClientError {
    /// A height with a zero revision height was supplied.
    InvalidHeight,
    /// A raw header carried no usable height.
    MissingRawHeader,
    /// A raw header carried an unusable timestamp.
    InvalidPacketTimestamp,
    /// A raw header body failed to decode.
    InvalidRawHeader(crate::codec::DecodeError),
    /// A header envelope carried an unexpected type URL.
    UnknownHeaderType { header_type: Vec<u8> },
    /// The client is frozen; no update is accepted.
    ClientFrozen,
    /// The header does not advance the verified height.
    LowHeaderHeight { header_height: Height, latest_height: Height },
    /// The trusted consensus state is older than the trusting period.
    HeaderNotWithinTrustPeriod,
    /// The header timestamp is further ahead of local time than the
    /// configured drift bound allows.
    ClockDriftExceeded,
    /// The header's embedded consensus proof was rejected.
    HeaderVerificationFailure(commitment::Error),
    /// The submitted evidence does not prove misbehaviour.
    MisbehaviourNotShown,
}

} // verus!
