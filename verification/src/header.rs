//! Mock light-client headers: a height plus a timestamp, carried on the wire
//! inside a type-tagged envelope, with a canonical encoding that decoding
//! inverts exactly.

use vstd::prelude::*;

use crate::client_error::ClientError;
use crate::codec::{
    bytes_eq, delimited, lemma_parse_varint_of_encoding, parse_delimited, parse_varint,
    push_delimited, push_varint, read_delimited, read_varint, varint,
};
use crate::height::Height;
use crate::timestamp::Timestamp;

verus! {

/// A counterparty header as this core consumes it: the verified height and
/// the paired clock reading.
#[derive(Copy, Clone, Debug, PartialEq, Eq, Structural)]
pub struct MockHeader {
    pub height: Height,
    pub timestamp: Timestamp,
}

impl Default for MockHeader {
    /// The least header: the minimal height of revision zero, no timestamp.
    fn default() -> (r: Self)
        ensures
            r.height == (Height { revision_number: 0u64, revision_height: 1u64 }),
            r.timestamp.nanos == 0,
    {
        MockHeader { height: Height::min(0), timestamp: Timestamp::none() }
    }
}

impl MockHeader {
    pub fn height(&self) -> (r: Height)
        ensures
            r == self.height,
    {
        self.height
    }

    pub fn timestamp(&self) -> (r: Timestamp)
        ensures
            r == self.timestamp,
    {
        self.timestamp
    }

    /// A header at the given height with no timestamp; the clock, where one
    /// exists, is threaded in explicitly through `with_timestamp`.
    pub fn new(height: Height) -> (r: Self)
        ensures
            r == (MockHeader { height, timestamp: Timestamp { nanos: 0u64 } }),
    {
        MockHeader { height, timestamp: Timestamp::none() }
    }

    pub fn with_timestamp(self, timestamp: Timestamp) -> (r: Self)
        ensures
            r == (MockHeader { timestamp, ..self }),
    {
        MockHeader { timestamp, ..self }
    }
}

/// A raw wire-level height, before validation.
#[derive(Copy, Clone, Debug, PartialEq, Eq, Structural)]
pub struct RawHeight {
    pub revision_number: u64,
    pub revision_height: u64,
}

/// A raw wire-level header, before validation: the height field may be
/// missing altogether.
#[derive(Copy, Clone, Debug, PartialEq, Eq, Structural)]
pub struct RawMockHeader {
    pub height: Option<RawHeight>,
    pub timestamp: u64,
}

/// What validating a raw header yields: a missing or zero height is
/// rejected, everything else is accepted as is.
pub open spec fn spec_try_from_raw(raw: RawMockHeader) -> Result<MockHeader, ClientError> {
    match raw.height {
        None => Err(ClientError::MissingRawHeader),
        Some(h) => if h.revision_height == 0 {
            Err(ClientError::MissingRawHeader)
        } else {
            Ok(
                MockHeader {
                    height: Height {
                        revision_number: h.revision_number,
                        revision_height: h.revision_height,
                    },
                    timestamp: Timestamp { nanos: raw.timestamp },
                },
            )
        },
    }
}

impl MockHeader {
    /// Validates a raw header, as `spec_try_from_raw` says.
    pub fn try_from_raw(raw: RawMockHeader) -> (r: Result<MockHeader, ClientError>)
        ensures
            r == spec_try_from_raw(raw),
            r matches Ok(h) ==> h.height.well_formed(),
    {
        match raw.height {
            None => Err(ClientError::MissingRawHeader),
            Some(h) => {
                if h.revision_height == 0 {
                    Err(ClientError::MissingRawHeader)
                } else {
                    Ok(
                        MockHeader {
                            height: Height {
                                revision_number: h.revision_number,
                                revision_height: h.revision_height,
                            },
                            timestamp: Timestamp::from_nanoseconds(raw.timestamp),
                        },
                    )
                }
            },
        }
    }

    /// Lowers a header to its raw wire-level form; the height is always
    /// present there.
    pub fn to_raw(self) -> (r: RawMockHeader)
        ensures
            r == (RawMockHeader {
                height: Some(
                    RawHeight {
                        revision_number: self.height.revision_number,
                        revision_height: self.height.revision_height,
                    },
                ),
                timestamp: self.timestamp.nanos,
            }),
    {
        RawMockHeader {
            height: Some(
                RawHeight {
                    revision_number: self.height.revision_number,
                    revision_height: self.height.revision_height,
                },
            ),
            timestamp: self.timestamp.nanos,
        }
    }
}

/// The byte form of the expected envelope tag for a mock header.
pub open spec fn mock_type_url() -> Seq<u8> {
    seq![47u8, 105u8, 98u8, 99u8, 46u8, 109u8, 111u8, 99u8, 107u8, 46u8, 72u8, 101u8, 97u8, 100u8, 101u8, 114u8]
}

/// The envelope tag for a mock header, `/ibc.mock.Header` as bytes.
pub fn mock_type_url_vec() -> (v: Vec<u8>)
    ensures
        v@ == mock_type_url(),
{
    let mut v: Vec<u8> = Vec::new();
    v.push(47);
    v.push(105);
    v.push(98);
    v.push(99);
    v.push(46);
    v.push(109);
    v.push(111);
    v.push(99);
    v.push(107);
    v.push(46);
    v.push(72);
    v.push(101);
    v.push(97);
    v.push(100);
    v.push(101);
    v.push(114);
    proof {
        assert(v@ =~= mock_type_url());
    }
    v
}

/// A type-tagged envelope around an encoded value.
#[derive(Clone, Debug, PartialEq, Eq)]
pub struct Any {
    pub type_url: Vec<u8>,
    pub value: Vec<u8>,
}

/// The canonical body of a height: each field tagged and varint-encoded,
/// omitted when zero.
pub open spec fn height_body(h: Height) -> Seq<u8> {
    (if h.revision_number == 0 {
        Seq::<u8>::empty()
    } else {
        seq![8u8] + varint(h.revision_number as nat)
    }) + (if h.revision_height == 0 {
        Seq::<u8>::empty()
    } else {
        seq![16u8] + varint(h.revision_height as nat)
    })
}

/// The canonical body of a raw header: the height as a length-delimited
/// field, then the timestamp, omitted when zero.
pub open spec fn header_body(h: MockHeader) -> Seq<u8> {
    seq![10u8] + delimited(height_body(h.height)) + (if h.timestamp.nanos == 0 {
        Seq::<u8>::empty()
    } else {
        seq![16u8] + varint(h.timestamp.nanos as nat)
    })
}

/// The canonical envelope: the type URL, then the length-delimited value.
pub open spec fn any_body(type_url: Seq<u8>, value: Seq<u8>) -> Seq<u8> {
    (if type_url.len() == 0 {
        Seq::<u8>::empty()
    } else {
        seq![10u8] + delimited(type_url)
    }) + (if value.len() == 0 {
        Seq::<u8>::empty()
    } else {
        seq![18u8] + delimited(value)
    })
}

/// The full wire form of a header: its body inside the tagged envelope.
pub open spec fn spec_encode_header(h: MockHeader) -> Seq<u8> {
    any_body(mock_type_url(), header_body(h))
}

fn push_height_body(out: &mut Vec<u8>, h: &Height)
    ensures
        final(out)@ == old(out)@ + height_body(*h),
{
    if h.revision_number != 0 {
        out.push(8);
        push_varint(out, h.revision_number);
    }
    if h.revision_height != 0 {
        out.push(16);
        push_varint(out, h.revision_height);
    }
    proof {
        assert(final(out)@ =~= old(out)@ + height_body(*h));
    }
}

fn header_body_vec(h: &MockHeader) -> (v: Vec<u8>)
    ensures
        v@ == header_body(*h),
{
    let mut hb: Vec<u8> = Vec::new();
    push_height_body(&mut hb, &h.height);
    let mut v: Vec<u8> = Vec::new();
    v.push(10);
    push_delimited(&mut v, &hb);
    if h.timestamp.nanos != 0 {
        v.push(16);
        push_varint(&mut v, h.timestamp.nanos);
    }
    proof {
        assert(v@ =~= header_body(*h));
    }
    v
}

impl MockHeader {
    /// Wraps the header in its tagged envelope.
    pub fn to_any(&self) -> (r: Any)
        ensures
            r.type_url@ == mock_type_url(),
            r.value@ == header_body(*self),
    {
        Any { type_url: mock_type_url_vec(), value: header_body_vec(self) }
    }

    /// The full canonical wire form of the header.
    pub fn encode_vec(&self) -> (v: Vec<u8>)
        ensures
            v@ == spec_encode_header(*self),
    {
        let any = self.to_any();
        encode_any(&any)
    }
}

/// Encodes an envelope canonically; empty fields are omitted.
pub fn encode_any(any: &Any) -> (v: Vec<u8>)
    ensures
        v@ == any_body(any.type_url@, any.value@),
{
    let mut v: Vec<u8> = Vec::new();
    if any.type_url.len() != 0 {
        v.push(10);
        push_delimited(&mut v, &any.type_url);
    }
    if any.value.len() != 0 {
        v.push(18);
        push_delimited(&mut v, &any.value);
    }
    proof {
        assert(v@ =~= any_body(any.type_url@, any.value@));
    }
    v
}

/// What the bytes of an envelope denote: both fields optional, in canonical
/// order, nothing trailing.
pub open spec fn parse_any_fields(s: Seq<u8>) -> Option<(Seq<u8>, Seq<u8>)> {
    if s.len() == 0 {
        Some((Seq::empty(), Seq::empty()))
    } else if s[0] == 10 {
        match parse_delimited(s, 1) {
            None => None,
            Some((url, p)) => if p == s.len() {
                Some((url, Seq::empty()))
            } else if s[p] == 18 {
                match parse_delimited(s, p + 1) {
                    None => None,
                    Some((value, q)) => if q == s.len() {
                        Some((url, value))
                    } else {
                        None
                    },
                }
            } else {
                None
            },
        }
    } else if s[0] == 18 {
        match parse_delimited(s, 1) {
            None => None,
            Some((value, q)) => if q == s.len() {
                Some((Seq::empty(), value))
            } else {
                None
            },
        }
    } else {
        None
    }
}

/// What the bytes of a raw header denote: an optional height body, an
/// optional timestamp, in canonical order, nothing trailing.
pub open spec fn parse_header_fields(s: Seq<u8>) -> Option<(Option<Seq<u8>>, nat)> {
    if s.len() == 0 {
        Some((None, 0))
    } else if s[0] == 10 {
        match parse_delimited(s, 1) {
            None => None,
            Some((hb, p)) => if p == s.len() {
                Some((Some(hb), 0))
            } else if s[p] == 16 {
                match parse_varint(s, p + 1) {
                    None => None,
                    Some((ts, q)) => if q == s.len() {
                        Some((Some(hb), ts))
                    } else {
                        None
                    },
                }
            } else {
                None
            },
        }
    } else if s[0] == 16 {
        match parse_varint(s, 1) {
            None => None,
            Some((ts, q)) => if q == s.len() {
                Some((None, ts))
            } else {
                None
            },
        }
    } else {
        None
    }
}

/// What the bytes of a height body denote: revision number and height, each
/// optional, in canonical order, nothing trailing.
pub open spec fn parse_height_fields(s: Seq<u8>) -> Option<(nat, nat)> {
    if s.len() == 0 {
        Some((0, 0))
    } else if s[0] == 8 {
        match parse_varint(s, 1) {
            None => None,
            Some((rn, p)) => if p == s.len() {
                Some((rn, 0))
            } else if s[p] == 16 {
                match parse_varint(s, p + 1) {
                    None => None,
                    Some((rh, q)) => if q == s.len() {
                        Some((rn, rh))
                    } else {
                        None
                    },
                }
            } else {
                None
            },
        }
    } else if s[0] == 16 {
        match parse_varint(s, 1) {
            None => None,
            Some((rh, q)) => if q == s.len() {
                Some((0, rh))
            } else {
                None
            },
        }
    } else {
        None
    }
}

/// Reads a height body, exactly as `parse_height_fields` denotes; a field
/// over 64 bits is a decode error.
fn read_height_fields(bytes: &Vec<u8>) -> (r: Result<RawHeight, crate::codec::DecodeError>)
    ensures
        parse_height_fields(bytes@) is None ==> r is Err,
        parse_height_fields(bytes@) matches Some((rn, rh)) ==> {
            &&& (rn < 0x10000000000000000 && rh < 0x10000000000000000) ==> (r matches Ok(o)
                && o.revision_number == rn && o.revision_height == rh)
            &&& (rn >= 0x10000000000000000 || rh >= 0x10000000000000000) ==> r is Err
        },
{
    let n = bytes.len();
    if n == 0 {
        return Ok(RawHeight { revision_number: 0, revision_height: 0 });
    }
    if bytes[0] == 8 {
        let (rn, p) = match read_varint(bytes, 1) {
            Ok(v) => v,
            Err(e) => {
                return Err(e);
            },
        };
        if p == n {
            return Ok(RawHeight { revision_number: rn, revision_height: 0 });
        }
        if bytes[p] == 16 {
            let (rh, q) = match read_varint(bytes, p + 1) {
                Ok(v) => v,
                Err(e) => {
                    return Err(e);
                },
            };
            if q == n {
                Ok(RawHeight { revision_number: rn, revision_height: rh })
            } else {
                Err(crate::codec::DecodeError::TrailingBytes)
            }
        } else {
            Err(crate::codec::DecodeError::InvalidTag)
        }
    } else if bytes[0] == 16 {
        let (rh, q) = match read_varint(bytes, 1) {
            Ok(v) => v,
            Err(e) => {
                return Err(e);
            },
        };
        if q == n {
            Ok(RawHeight { revision_number: 0, revision_height: rh })
        } else {
            Err(crate::codec::DecodeError::TrailingBytes)
        }
    } else {
        Err(crate::codec::DecodeError::InvalidTag)
    }
}

/// What validating the bytes of a header body yields, or `None` for a
/// structural decode failure.
pub open spec fn spec_header_of_value(value: Seq<u8>) -> Option<Result<MockHeader, ClientError>> {
    match parse_header_fields(value) {
        None => None,
        Some((hbopt, ts)) => if ts >= 0x10000000000000000 {
            None
        } else {
            match hbopt {
                None => Some(Err(ClientError::MissingRawHeader)),
                Some(hb) => match parse_height_fields(hb) {
                    None => None,
                    Some((rn, rh)) => if rn >= 0x10000000000000000 || rh >= 0x10000000000000000 {
                        None
                    } else {
                        Some(
                            spec_try_from_raw(
                                RawMockHeader {
                                    height: Some(
                                        RawHeight {
                                            revision_number: rn as u64,
                                            revision_height: rh as u64,
                                        },
                                    ),
                                    timestamp: ts as u64,
                                },
                            ),
                        )
                    },
                },
            }
        },
    }
}

/// Reads a raw header body: the optional height body, then the optional
/// timestamp, exactly as the parse functions denote.
fn read_header_body(bytes: &Vec<u8>) -> (r: Result<RawMockHeader, crate::codec::DecodeError>)
    ensures
        parse_header_fields(bytes@) is None ==> r is Err,
        parse_header_fields(bytes@) matches Some((hbopt, ts)) ==> {
            &&& ts >= 0x10000000000000000 ==> r is Err
            &&& ts < 0x10000000000000000 ==> match hbopt {
                None => (r matches Ok(o) && o.height is None && o.timestamp == ts),
                Some(hb) => match parse_height_fields(hb) {
                    None => r is Err,
                    Some((rn, rh)) => if rn >= 0x10000000000000000 || rh
                        >= 0x10000000000000000 {
                        r is Err
                    } else {
                        (r matches Ok(o) && o.timestamp == ts && (o.height matches Some(rw)
                            && rw.revision_number == rn && rw.revision_height == rh))
                    },
                },
            }
        },
{
    let n = bytes.len();
    if n == 0 {
        return Ok(RawMockHeader { height: None, timestamp: 0 });
    }
    if bytes[0] == 10 {
        let (hb, p) = match read_delimited(bytes, 1) {
            Ok(v) => v,
            Err(e) => {
                return Err(e);
            },
        };
        let raw_height = match read_height_fields(&hb) {
            Ok(v) => v,
            Err(e) => {
                return Err(e);
            },
        };
        if p == n {
            return Ok(RawMockHeader { height: Some(raw_height), timestamp: 0 });
        }
        if bytes[p] == 16 {
            let (ts, q) = match read_varint(bytes, p + 1) {
                Ok(v) => v,
                Err(e) => {
                    return Err(e);
                },
            };
            if q == n {
                Ok(RawMockHeader { height: Some(raw_height), timestamp: ts })
            } else {
                Err(crate::codec::DecodeError::TrailingBytes)
            }
        } else {
            Err(crate::codec::DecodeError::InvalidTag)
        }
    } else if bytes[0] == 16 {
        let (ts, q) = match read_varint(bytes, 1) {
            Ok(v) => v,
            Err(e) => {
                return Err(e);
            },
        };
        if q == n {
            Ok(RawMockHeader { height: None, timestamp: ts })
        } else {
            Err(crate::codec::DecodeError::TrailingBytes)
        }
    } else {
        Err(crate::codec::DecodeError::InvalidTag)
    }
}

/// Reads an envelope, exactly as `parse_any_fields` denotes.
pub fn decode_any(bytes: &Vec<u8>) -> (r: Result<Any, crate::codec::DecodeError>)
    ensures
        parse_any_fields(bytes@) is None ==> r is Err,
        parse_any_fields(bytes@) matches Some((url, value)) ==> (r matches Ok(o) && o.type_url@
            == url && o.value@ == value),
{
    let n = bytes.len();
    if n == 0 {
        return Ok(Any { type_url: Vec::new(), value: Vec::new() });
    }
    if bytes[0] == 10 {
        let (url, p) = match read_delimited(bytes, 1) {
            Ok(v) => v,
            Err(e) => {
                return Err(e);
            },
        };
        if p == n {
            return Ok(Any { type_url: url, value: Vec::new() });
        }
        if bytes[p] == 18 {
            let (value, q) = match read_delimited(bytes, p + 1) {
                Ok(v) => v,
                Err(e) => {
                    return Err(e);
                },
            };
            if q == n {
                Ok(Any { type_url: url, value })
            } else {
                Err(crate::codec::DecodeError::TrailingBytes)
            }
        } else {
            Err(crate::codec::DecodeError::InvalidTag)
        }
    } else if bytes[0] == 18 {
        let (value, q) = match read_delimited(bytes, 1) {
            Ok(v) => v,
            Err(e) => {
                return Err(e);
            },
        };
        if q == n {
            Ok(Any { type_url: Vec::new(), value })
        } else {
            Err(crate::codec::DecodeError::TrailingBytes)
        }
    } else {
        Err(crate::codec::DecodeError::InvalidTag)
    }
}

impl MockHeader {
    /// Unwraps the envelope: the type URL must name a mock header, and the
    /// value must validate as one.
    pub fn try_from_any(any: Any) -> (r: Result<MockHeader, ClientError>)
        ensures
            any.type_url@ != mock_type_url() ==> (r matches Err(e) && e matches
                ClientError::UnknownHeaderType { header_type } && header_type@ == any.type_url@),
            any.type_url@ == mock_type_url() ==> {
                &&& spec_header_of_value(any.value@) is None ==> (r matches Err(e)
                    && e is InvalidRawHeader)
                &&& spec_header_of_value(any.value@) matches Some(res) ==> r == res
            },
    {
        let expected = mock_type_url_vec();
        if !bytes_eq(&any.type_url, &expected) {
            return Err(ClientError::UnknownHeaderType { header_type: any.type_url });
        }
        match read_header_body(&any.value) {
            Err(e) => Err(ClientError::InvalidRawHeader(e)),
            Ok(raw) => MockHeader::try_from_raw(raw),
        }
    }

    /// Reads a header back from its full wire form; the inverse of
    /// `encode_vec` on every well-formed header.
    pub fn decode_vec(bytes: &Vec<u8>) -> (r: Result<MockHeader, ClientError>)
        ensures
            parse_any_fields(bytes@) is None ==> (r matches Err(e) && e is InvalidRawHeader),
            parse_any_fields(bytes@) matches Some((url, value)) ==> {
                &&& url != mock_type_url() ==> (r matches Err(e) && e matches
                    ClientError::UnknownHeaderType { header_type } && header_type@ == url)
                &&& url == mock_type_url() ==> {
                    &&& spec_header_of_value(value) is None ==> (r matches Err(e)
                        && e is InvalidRawHeader)
                    &&& spec_header_of_value(value) matches Some(res) ==> r == res
                }
            },
    {
        match decode_any(bytes) {
            Err(e) => Err(ClientError::InvalidRawHeader(e)),
            Ok(any) => MockHeader::try_from_any(any),
        }
    }
}

proof fn lemma_varint_len_le(n: nat, k: nat)
    requires
        k >= 1,
        n < vstd::arithmetic::power::pow(128, k),
    ensures
        varint(n).len() <= k,
    decreases k,
{
    reveal(vstd::arithmetic::power::pow);
    if n < 128 {
    } else {
        assert(vstd::arithmetic::power::pow(128, k) == 128 * vstd::arithmetic::power::pow(
            128,
            (k - 1) as nat,
        ));
        assert(k >= 2) by {
            if k == 1 {
                assert(vstd::arithmetic::power::pow(128, 1nat) == 128);
            }
        }
        assert(n / 128 < vstd::arithmetic::power::pow(128, (k - 1) as nat)) by (nonlinear_arith)
            requires
                n < 128 * vstd::arithmetic::power::pow(128, (k - 1) as nat),
        ;
        lemma_varint_len_le(n / 128, (k - 1) as nat);
    }
}

/// The wire form of a 64-bit number is at most ten bytes.
pub proof fn lemma_varint_len10(n: nat)
    requires
        n < 0x10000000000000000,
    ensures
        varint(n).len() <= 10,
{
    reveal(vstd::arithmetic::power::pow);
    assert(vstd::arithmetic::power::pow(128, 0nat) == 1);
    assert(vstd::arithmetic::power::pow(128, 1nat) == 128);
    assert(vstd::arithmetic::power::pow(128, 2nat) == 0x4000);
    assert(vstd::arithmetic::power::pow(128, 3nat) == 0x200000);
    assert(vstd::arithmetic::power::pow(128, 4nat) == 0x10000000);
    assert(vstd::arithmetic::power::pow(128, 5nat) == 0x800000000);
    assert(vstd::arithmetic::power::pow(128, 6nat) == 0x40000000000);
    assert(vstd::arithmetic::power::pow(128, 7nat) == 0x2000000000000);
    assert(vstd::arithmetic::power::pow(128, 8nat) == 0x100000000000000);
    assert(vstd::arithmetic::power::pow(128, 9nat) == 0x8000000000000000);
    assert(vstd::arithmetic::power::pow(128, 10nat) == 0x400000000000000000);
    lemma_varint_len_le(n, 10);
}

/// The wire form of a height parses back to exactly its two fields.
pub proof fn lemma_parse_height_of_encoding(h: Height)
    ensures
        parse_height_fields(height_body(h)) == Some(
            (h.revision_number as nat, h.revision_height as nat),
        ),
{
    let s = height_body(h);
    let rn = h.revision_number as nat;
    let rh = h.revision_height as nat;
    if h.revision_number == 0 && h.revision_height == 0 {
        assert(s.len() == 0);
    } else if h.revision_number == 0 {
        let l2 = varint(rh).len() as int;
        assert(s[0] == 16);
        assert(s.subrange(1, 1 + l2) =~= varint(rh)) by {
            assert(forall|i: int| 0 <= i < l2 ==> s.subrange(1, 1 + l2)[i] == s[1 + i]
                && s[1 + i] == #[trigger] varint(rh)[i]);
        }
        lemma_parse_varint_of_encoding(s, 1, rh);
        assert(s.len() == 1 + l2);
    } else if h.revision_height == 0 {
        let l1 = varint(rn).len() as int;
        assert(s[0] == 8);
        assert(s.subrange(1, 1 + l1) =~= varint(rn)) by {
            assert(forall|i: int| 0 <= i < l1 ==> s.subrange(1, 1 + l1)[i] == s[1 + i]
                && s[1 + i] == #[trigger] varint(rn)[i]);
        }
        lemma_parse_varint_of_encoding(s, 1, rn);
        assert(s.len() == 1 + l1);
    } else {
        let l1 = varint(rn).len() as int;
        let l2 = varint(rh).len() as int;
        let p = 1 + l1;
        assert(s[0] == 8);
        assert(s.subrange(1, 1 + l1) =~= varint(rn)) by {
            assert(forall|i: int| 0 <= i < l1 ==> s.subrange(1, 1 + l1)[i] == s[1 + i]
                && s[1 + i] == #[trigger] varint(rn)[i]);
        }
        lemma_parse_varint_of_encoding(s, 1, rn);
        assert(s[p] == 16);
        assert(s.subrange(p + 1, p + 1 + l2) =~= varint(rh)) by {
            assert(forall|i: int| 0 <= i < l2 ==> s.subrange(p + 1, p + 1 + l2)[i] == s[p + 1 + i]
                && s[p + 1 + i] == #[trigger] varint(rh)[i]);
        }
        lemma_parse_varint_of_encoding(s, p + 1, rh);
        assert(s.len() == p + 1 + l2);
    }
}

/// The wire form of a header body parses back to exactly its height body
/// and timestamp.
pub proof fn lemma_parse_header_of_encoding(h: MockHeader)
    ensures
        parse_header_fields(header_body(h)) == Some(
            (Some(height_body(h.height)), h.timestamp.nanos as nat),
        ),
{
    let s = header_body(h);
    let hb = height_body(h.height);
    lemma_varint_len10(h.height.revision_number as nat);
    lemma_varint_len10(h.height.revision_height as nat);
    assert(hb.len() <= 22);
    let dl = delimited(hb).len() as int;
    let p = 1 + dl;
    assert(s[0] == 10);
    assert(s.subrange(1, 1 + dl) =~= delimited(hb)) by {
        assert(forall|i: int| 0 <= i < dl ==> s.subrange(1, 1 + dl)[i] == s[1 + i]
                && s[1 + i] == #[trigger] delimited(hb)[i]);
    }
    crate::codec::lemma_parse_delimited_of_encoding(s, 1, hb);
    if h.timestamp.nanos == 0 {
        assert(s.len() == p);
    } else {
        let ts = h.timestamp.nanos as nat;
        let l2 = varint(ts).len() as int;
        assert(s[p] == 16);
        assert(s.subrange(p + 1, p + 1 + l2) =~= varint(ts)) by {
            assert(forall|i: int| 0 <= i < l2 ==> s.subrange(p + 1, p + 1 + l2)[i] == s[p + 1 + i]
                && s[p + 1 + i] == #[trigger] varint(ts)[i]);
        }
        lemma_parse_varint_of_encoding(s, p + 1, ts);
        assert(s.len() == p + 1 + l2);
    }
}

/// The wire form of an envelope with two non-empty fields parses back to
/// exactly those fields.
pub proof fn lemma_parse_any_of_encoding(url: Seq<u8>, value: Seq<u8>)
    requires
        0 < url.len() < 0x10000000000000000,
        0 < value.len() < 0x10000000000000000,
    ensures
        parse_any_fields(any_body(url, value)) == Some((url, value)),
{
    let s = any_body(url, value);
    let du = delimited(url).len() as int;
    let p = 1 + du;
    let dv = delimited(value).len() as int;
    assert(s[0] == 10);
    assert(s.subrange(1, 1 + du) =~= delimited(url)) by {
        assert(forall|i: int| 0 <= i < du ==> s.subrange(1, 1 + du)[i] == s[1 + i]
                && s[1 + i] == #[trigger] delimited(url)[i]);
    }
    crate::codec::lemma_parse_delimited_of_encoding(s, 1, url);
    assert(s[p] == 18);
    assert(s.subrange(p + 1, p + 1 + dv) =~= delimited(value)) by {
        assert(forall|i: int| 0 <= i < dv ==> s.subrange(p + 1, p + 1 + dv)[i] == s[p + 1 + i]
                && s[p + 1 + i] == #[trigger] delimited(value)[i]);
    }
    crate::codec::lemma_parse_delimited_of_encoding(s, p + 1, value);
    assert(s.len() == p + 1 + dv);
}

/// Decoding inverts encoding: the full wire form of any well-formed header
/// parses back to the envelope of that header, and validating its body gives
/// back exactly the header.
pub proof fn lemma_header_round_trip(h: MockHeader)
    requires
        h.height.well_formed(),
    ensures
        parse_any_fields(spec_encode_header(h)) == Some((mock_type_url(), header_body(h))),
        spec_header_of_value(header_body(h)) == Some(Ok::<MockHeader, ClientError>(h)),
{
    lemma_varint_len10(h.height.revision_number as nat);
    lemma_varint_len10(h.height.revision_height as nat);
    lemma_varint_len10(h.timestamp.nanos as nat);
    let hb = height_body(h.height);
    assert(hb.len() <= 22);
    assert(varint(hb.len()).len() == 1);
    assert(header_body(h).len() <= 35);
    assert(mock_type_url().len() == 16);
    lemma_parse_any_of_encoding(mock_type_url(), header_body(h));
    lemma_parse_header_of_encoding(h);
    lemma_parse_height_of_encoding(h.height);
}

} // verus!
