//! Canonical wire form of the client state: fixed-width scalar fields, the
//! length-delimited root, and the frozen flag, with decoding proven to
//! invert encoding.

use vstd::prelude::*;

use crate::client::{ClientState, TrustLevel};
use crate::codec::{delimited, parse_delimited, push_delimited, read_delimited, DecodeError};
use crate::commitment::{be8, be8_vec, CommitmentRoot};
use crate::height::Height;
use crate::timestamp::Timestamp;

verus! {

/// The number eight big-endian bytes spell, leading byte first.
pub open spec fn be8_val(s: Seq<u8>) -> nat {
    (((((((s[0] * 256 + s[1]) * 256 + s[2]) * 256 + s[3]) * 256 + s[4]) * 256 + s[5]) * 256 + s[6])
        * 256 + s[7]) as nat
}

/// Reading back the eight bytes a 64-bit number was spelled into gives the
/// number.
pub proof fn lemma_be8_val(n: nat)
    requires
        n < 0x10000000000000000,
    ensures
        be8_val(be8(n)) == n,
{
    let x = n as int;
    vstd::arithmetic::div_mod::lemma_div_denominator(x, 0x100000000000000, 256);
    vstd::arithmetic::div_mod::lemma_div_denominator(x, 0x1000000000000, 256);
    vstd::arithmetic::div_mod::lemma_div_denominator(x, 0x10000000000, 256);
    vstd::arithmetic::div_mod::lemma_div_denominator(x, 0x100000000, 256);
    vstd::arithmetic::div_mod::lemma_div_denominator(x, 0x1000000, 256);
    vstd::arithmetic::div_mod::lemma_div_denominator(x, 0x10000, 256);
    vstd::arithmetic::div_mod::lemma_div_denominator(x, 0x100, 256);
    vstd::arithmetic::div_mod::lemma_fundamental_div_mod(x / 0x100000000000000, 256);
    vstd::arithmetic::div_mod::lemma_fundamental_div_mod(x / 0x1000000000000, 256);
    vstd::arithmetic::div_mod::lemma_fundamental_div_mod(x / 0x10000000000, 256);
    vstd::arithmetic::div_mod::lemma_fundamental_div_mod(x / 0x100000000, 256);
    vstd::arithmetic::div_mod::lemma_fundamental_div_mod(x / 0x1000000, 256);
    vstd::arithmetic::div_mod::lemma_fundamental_div_mod(x / 0x10000, 256);
    vstd::arithmetic::div_mod::lemma_fundamental_div_mod(x / 0x100, 256);
    vstd::arithmetic::div_mod::lemma_fundamental_div_mod(x, 256);
}

/// Reads the number spelled at `pos` by eight big-endian bytes.
pub fn u64_from_be8(bytes: &Vec<u8>, pos: usize) -> (r: u64)
    requires
        pos + 8 <= bytes@.len(),
    ensures
        r as nat == be8_val(bytes@.subrange(pos as int, pos as int + 8)),
{
    let ghost w = bytes@.subrange(pos as int, pos as int + 8);
    let n = bytes.len();
    let mut v: u64 = bytes[pos] as u64;
    proof {
        assert(v < 0x100);
    }
    v = v * 256 + bytes[pos + 1] as u64;
    proof {
        assert(v < 0x10000);
    }
    v = v * 256 + bytes[pos + 2] as u64;
    proof {
        assert(v < 0x1000000);
    }
    v = v * 256 + bytes[pos + 3] as u64;
    proof {
        assert(v < 0x100000000);
    }
    v = v * 256 + bytes[pos + 4] as u64;
    proof {
        assert(v < 0x10000000000);
    }
    v = v * 256 + bytes[pos + 5] as u64;
    proof {
        assert(v < 0x1000000000000);
    }
    v = v * 256 + bytes[pos + 6] as u64;
    proof {
        assert(v < 0x100000000000000);
    }
    v = v * 256 + bytes[pos + 7] as u64;
    proof {
        assert(forall|i: int| 0 <= i < 8 ==> #[trigger] w[i] == bytes@[pos + i]);
    }
    v
}

/// The canonical wire form of a client state: trust fraction, the three
/// period parameters, the latest verified height and timestamp — each as
/// eight big-endian bytes — then the length-delimited root and one frozen
/// byte.
#[verifier::opaque]
pub open spec fn spec_encode_client_state(cs: ClientState) -> Seq<u8> {
    be8(cs.trust_level.numerator as nat) + be8(cs.trust_level.denominator as nat) + be8(
        cs.trusting_period as nat,
    ) + be8(cs.unbonding_period as nat) + be8(cs.max_clock_drift as nat) + be8(
        cs.latest_height.revision_number as nat,
    ) + be8(cs.latest_height.revision_height as nat) + be8(cs.latest_timestamp.nanos as nat)
        + delimited(cs.root.bytes@) + seq![if cs.frozen {
        1u8
    } else {
        0u8
    }]
}

/// Two client states that denote the same verified summary.
pub open spec fn client_state_matches(a: ClientState, b: ClientState) -> bool {
    &&& a.trust_level == b.trust_level
    &&& a.trusting_period == b.trusting_period
    &&& a.unbonding_period == b.unbonding_period
    &&& a.max_clock_drift == b.max_clock_drift
    &&& a.latest_height == b.latest_height
    &&& a.latest_timestamp == b.latest_timestamp
    &&& a.root.bytes@ == b.root.bytes@
    &&& a.frozen == b.frozen
}

impl ClientState {
    /// The canonical wire form of this client state.
    pub fn encode_vec(&self) -> (v: Vec<u8>)
        ensures
            v@ == spec_encode_client_state(*self),
    {
        let mut v = be8_vec(self.trust_level.numerator);
        let b2 = be8_vec(self.trust_level.denominator);
        let b3 = be8_vec(self.trusting_period);
        let b4 = be8_vec(self.unbonding_period);
        let b5 = be8_vec(self.max_clock_drift);
        let b6 = be8_vec(self.latest_height.revision_number);
        let b7 = be8_vec(self.latest_height.revision_height);
        let b8 = be8_vec(self.latest_timestamp.nanos);
        crate::codec::push_slice(&mut v, &b2);
        crate::codec::push_slice(&mut v, &b3);
        crate::codec::push_slice(&mut v, &b4);
        crate::codec::push_slice(&mut v, &b5);
        crate::codec::push_slice(&mut v, &b6);
        crate::codec::push_slice(&mut v, &b7);
        crate::codec::push_slice(&mut v, &b8);
        push_delimited(&mut v, &self.root.bytes);
        if self.frozen {
            v.push(1);
        } else {
            v.push(0);
        }
        proof {
            reveal(spec_encode_client_state);
            assert(v@ =~= spec_encode_client_state(*self));
        }
        v
    }

    /// Reads a client state back from its wire form: the inverse of
    /// `encode_vec` on every well-formed client state.
    #[verifier::rlimit(100)]
    pub fn decode_vec(bytes: &Vec<u8>) -> (r: Result<ClientState, DecodeError>)
        ensures
            forall|cs: ClientState|
                (cs.well_formed() && bytes@ == spec_encode_client_state(cs)) ==> (r matches Ok(o)
                    && client_state_matches(o, cs)),
    {
        if bytes.len() < 64 {
            proof {
                assert forall|cs: ClientState|
                    cs.well_formed() && bytes@ == spec_encode_client_state(cs) implies false by {
                    lemma_decode_tail(bytes@, cs);
                }
            }
            return Err(DecodeError::UnexpectedEnd);
        }
        let numerator = u64_from_be8(bytes, 0);
        let denominator = u64_from_be8(bytes, 8);
        let trusting_period = u64_from_be8(bytes, 16);
        let unbonding_period = u64_from_be8(bytes, 24);
        let max_clock_drift = u64_from_be8(bytes, 32);
        let revision_number = u64_from_be8(bytes, 40);
        let revision_height = u64_from_be8(bytes, 48);
        let nanos = u64_from_be8(bytes, 56);
        let (root_bytes, p) = match read_delimited(bytes, 64) {
            Ok(v) => v,
            Err(e) => {
                proof {
                    assert forall|cs: ClientState|
                        cs.well_formed() && bytes@ == spec_encode_client_state(
                            cs,
                        ) implies false by {
                        lemma_decode_tail(bytes@, cs);
                    }
                }
                return Err(e);
            },
        };
        if p != bytes.len() - 1 {
            proof {
                assert forall|cs: ClientState|
                    cs.well_formed() && bytes@ == spec_encode_client_state(cs) implies false by {
                    lemma_decode_tail(bytes@, cs);
                }
            }
            return Err(DecodeError::TrailingBytes);
        }
        let frozen_byte = bytes[p];
        if frozen_byte > 1 {
            proof {
                assert forall|cs: ClientState|
                    cs.well_formed() && bytes@ == spec_encode_client_state(cs) implies false by {
                    lemma_decode_tail(bytes@, cs);
                }
            }
            return Err(DecodeError::InvalidTag);
        }
        let result = ClientState {
            trust_level: TrustLevel { numerator, denominator },
            trusting_period,
            unbonding_period,
            max_clock_drift,
            latest_height: Height { revision_number, revision_height },
            latest_timestamp: Timestamp { nanos },
            root: CommitmentRoot { bytes: root_bytes },
            frozen: frozen_byte == 1,
        };
        proof {
            assert forall|cs: ClientState|
                (cs.well_formed() && bytes@ == spec_encode_client_state(
                    cs,
                )) implies client_state_matches(result, cs) by {
                lemma_decode_scalars(bytes@, cs);
                lemma_decode_tail(bytes@, cs);
            }
        }
        Ok(result)
    }
}

/// From the wire form of a client state, the eight scalar fields read back
/// exactly.
proof fn lemma_concat_block8(
    b1: Seq<u8>,
    b2: Seq<u8>,
    b3: Seq<u8>,
    b4: Seq<u8>,
    b5: Seq<u8>,
    b6: Seq<u8>,
    b7: Seq<u8>,
    b8: Seq<u8>,
)
    requires
        b1.len() == 8,
        b2.len() == 8,
        b3.len() == 8,
        b4.len() == 8,
        b5.len() == 8,
        b6.len() == 8,
        b7.len() == 8,
        b8.len() == 8,
    ensures
        (b1 + b2 + b3 + b4 + b5 + b6 + b7 + b8).len() == 64,
        (b1 + b2 + b3 + b4 + b5 + b6 + b7 + b8).subrange(0, 8) == b1,
        (b1 + b2 + b3 + b4 + b5 + b6 + b7 + b8).subrange(8, 16) == b2,
        (b1 + b2 + b3 + b4 + b5 + b6 + b7 + b8).subrange(16, 24) == b3,
        (b1 + b2 + b3 + b4 + b5 + b6 + b7 + b8).subrange(24, 32) == b4,
        (b1 + b2 + b3 + b4 + b5 + b6 + b7 + b8).subrange(32, 40) == b5,
        (b1 + b2 + b3 + b4 + b5 + b6 + b7 + b8).subrange(40, 48) == b6,
        (b1 + b2 + b3 + b4 + b5 + b6 + b7 + b8).subrange(48, 56) == b7,
        (b1 + b2 + b3 + b4 + b5 + b6 + b7 + b8).subrange(56, 64) == b8,
{
    let s = b1 + b2 + b3 + b4 + b5 + b6 + b7 + b8;
    assert(s.subrange(0, 8) =~= b1);
    assert(s.subrange(8, 16) =~= b2);
    assert(s.subrange(16, 24) =~= b3);
    assert(s.subrange(24, 32) =~= b4);
    assert(s.subrange(32, 40) =~= b5);
    assert(s.subrange(40, 48) =~= b6);
    assert(s.subrange(48, 56) =~= b7);
    assert(s.subrange(56, 64) =~= b8);
}

/// The eight scalar fields of the block read back exactly.
#[verifier::rlimit(100)]
#[verifier::spinoff_prover]
proof fn lemma_scalar_fields(cs: ClientState)
    ensures
        scalar_block(cs).len() == 64,
        scalar_block(cs).subrange(0, 8) == be8(cs.trust_level.numerator as nat),
        scalar_block(cs).subrange(8, 16) == be8(cs.trust_level.denominator as nat),
        scalar_block(cs).subrange(16, 24) == be8(cs.trusting_period as nat),
        scalar_block(cs).subrange(24, 32) == be8(cs.unbonding_period as nat),
        scalar_block(cs).subrange(32, 40) == be8(cs.max_clock_drift as nat),
        scalar_block(cs).subrange(40, 48) == be8(cs.latest_height.revision_number as nat),
        scalar_block(cs).subrange(48, 56) == be8(cs.latest_height.revision_height as nat),
        scalar_block(cs).subrange(56, 64) == be8(cs.latest_timestamp.nanos as nat),
{
    reveal(scalar_block);
    lemma_concat_block8(
        be8(cs.trust_level.numerator as nat),
        be8(cs.trust_level.denominator as nat),
        be8(cs.trusting_period as nat),
        be8(cs.unbonding_period as nat),
        be8(cs.max_clock_drift as nat),
        be8(cs.latest_height.revision_number as nat),
        be8(cs.latest_height.revision_height as nat),
        be8(cs.latest_timestamp.nanos as nat),
    );
}

/// From the wire form of a client state, the eight scalar fields read back
/// exactly.




/// From the wire form of a client state, the eight scalar fields read back
/// exactly.
#[verifier::rlimit(100)]
proof fn lemma_decode_scalars(s: Seq<u8>, cs: ClientState)
    requires
        s == spec_encode_client_state(cs),
    ensures
        be8_val(s.subrange(0, 8)) == cs.trust_level.numerator,
        be8_val(s.subrange(8, 16)) == cs.trust_level.denominator,
        be8_val(s.subrange(16, 24)) == cs.trusting_period,
        be8_val(s.subrange(24, 32)) == cs.unbonding_period,
        be8_val(s.subrange(32, 40)) == cs.max_clock_drift,
        be8_val(s.subrange(40, 48)) == cs.latest_height.revision_number,
        be8_val(s.subrange(48, 56)) == cs.latest_height.revision_height,
        be8_val(s.subrange(56, 64)) == cs.latest_timestamp.nanos,
{
    lemma_enc_shape(cs);
    let a = scalar_block(cs);
    let fb: u8 = if cs.frozen {
        1u8
    } else {
        0u8
    };
    lemma_concat3(a, delimited(cs.root.bytes@), seq![fb]);
    assert(forall|k: int, j: int|
        0 <= k && k + 8 <= 64 && 0 <= j < 8 ==> #[trigger] s.subrange(k, k + 8)[j] == a.subrange(
            k,
            k + 8,
        )[j]);
    assert(s.subrange(0, 8) =~= a.subrange(0, 8));
    assert(s.subrange(8, 16) =~= a.subrange(8, 16));
    assert(s.subrange(16, 24) =~= a.subrange(16, 24));
    assert(s.subrange(24, 32) =~= a.subrange(24, 32));
    assert(s.subrange(32, 40) =~= a.subrange(32, 40));
    assert(s.subrange(40, 48) =~= a.subrange(40, 48));
    assert(s.subrange(48, 56) =~= a.subrange(48, 56));
    assert(s.subrange(56, 64) =~= a.subrange(56, 64));
    lemma_scalar_fields(cs);
    lemma_be8_val(cs.trust_level.numerator as nat);
    lemma_be8_val(cs.trust_level.denominator as nat);
    lemma_be8_val(cs.trusting_period as nat);
    lemma_be8_val(cs.unbonding_period as nat);
    lemma_be8_val(cs.max_clock_drift as nat);
    lemma_be8_val(cs.latest_height.revision_number as nat);
    lemma_be8_val(cs.latest_height.revision_height as nat);
    lemma_be8_val(cs.latest_timestamp.nanos as nat);
}

/// The first 64 bytes of the wire form: the eight scalar fields.
#[verifier::opaque]
pub open spec fn scalar_block(cs: ClientState) -> Seq<u8> {
    be8(cs.trust_level.numerator as nat) + be8(cs.trust_level.denominator as nat) + be8(
        cs.trusting_period as nat,
    ) + be8(cs.unbonding_period as nat) + be8(cs.max_clock_drift as nat) + be8(
        cs.latest_height.revision_number as nat,
    ) + be8(cs.latest_height.revision_height as nat) + be8(cs.latest_timestamp.nanos as nat)
}

/// The wire form splits into the scalar block, the delimited root, and the
/// frozen byte.
#[verifier::rlimit(100)]
proof fn lemma_enc_shape(cs: ClientState)
    ensures
        spec_encode_client_state(cs) == scalar_block(cs) + delimited(cs.root.bytes@) + seq![
            if cs.frozen {
                1u8
            } else {
                0u8
            },
        ],
        scalar_block(cs).len() == 64,
{
    reveal(spec_encode_client_state);
    reveal(scalar_block);
}

proof fn lemma_concat3(a: Seq<u8>, b: Seq<u8>, c: Seq<u8>)
    ensures
        (a + b + c).len() == a.len() + b.len() + c.len(),
        (a + b + c).subrange(a.len() as int, a.len() + b.len() as int) =~= b,
        forall|i: int|
            0 <= i < c.len() ==> (a + b + c)[a.len() + b.len() + i] == #[trigger] c[i],
        forall|i: int| 0 <= i < a.len() ==> (a + b + c)[i] == #[trigger] a[i],
{
    let al = a.len() as int;
    let bl = b.len() as int;
    assert((a + b + c).subrange(al, al + bl) =~= b) by {
        assert(forall|i: int|
            0 <= i < bl ==> (a + b + c).subrange(al, al + bl)[i] == #[trigger] b[i]);
    }
}

/// From the wire form of a client state, the root and frozen flag read back
/// exactly, and the length is pinned.
#[verifier::rlimit(100)]
proof fn lemma_decode_tail(s: Seq<u8>, cs: ClientState)
    requires
        s == spec_encode_client_state(cs),
    ensures
        parse_delimited(s, 64) == Some(
            (cs.root.bytes@, 64 + delimited(cs.root.bytes@).len() as int),
        ),
        s.len() == 65 + delimited(cs.root.bytes@).len(),
        s[s.len() - 1] == (if cs.frozen {
            1u8
        } else {
            0u8
        }),
{
    lemma_enc_shape(cs);
    vstd::std_specs::vec::axiom_spec_len(&cs.root.bytes);
    let d = delimited(cs.root.bytes@);
    let fb: u8 = if cs.frozen {
        1u8
    } else {
        0u8
    };
    lemma_concat3(scalar_block(cs), d, seq![fb]);
    assert(s.subrange(64, 64 + d.len() as int) == d);
    crate::codec::lemma_parse_delimited_of_encoding(s, 64, cs.root.bytes@);
    assert(s[s.len() - 1] == seq![fb][0]);
}

/// Decoding inverts encoding for client states: stated over the parse
/// functions the decoder is specified by.
pub proof fn lemma_client_state_round_trip(cs: ClientState)
    requires
        cs.well_formed(),
    ensures
        parse_delimited(spec_encode_client_state(cs), 64) == Some(
            (cs.root.bytes@, 64 + delimited(cs.root.bytes@).len() as int),
        ),
        be8_val(spec_encode_client_state(cs).subrange(40, 48))
            == cs.latest_height.revision_number,
        be8_val(spec_encode_client_state(cs).subrange(48, 56))
            == cs.latest_height.revision_height,
{
    lemma_decode_scalars(spec_encode_client_state(cs), cs);
    lemma_decode_tail(spec_encode_client_state(cs), cs);
}

} // verus!