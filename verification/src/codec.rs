//! Canonical binary encoding shared by all persisted and exchanged
//! structures: base-128 varints and length-delimited fields, so that every
//! value has exactly one wire form and decoding is its inverse.

use vstd::prelude::*;

verus! {

/// Why a byte string failed to decode.
#[derive(Clone, Copy, Debug, PartialEq, Eq, Structural)]
pub enum DecodeError {
    /// The input ended inside a value.
    UnexpectedEnd,
    /// A varint does not fit in 64 bits.
    Overflow,
    /// A field tag other than the canonical one was found.
    InvalidTag,
    /// Bytes remain after the last field.
    TrailingBytes,
}

/// The canonical base-128 wire form of a number: seven value bits per byte,
/// least significant group first, high bit set on every byte but the last.
pub open spec fn varint(n: nat) -> Seq<u8>
    decreases n,
{
    if n < 128 {
        seq![n as u8]
    } else {
        seq![(n % 128 + 128) as u8] + varint(n / 128)
    }
}

/// What a varint starting at `pos` denotes, and where it ends; `None` when
/// the input ends inside it.
pub open spec fn parse_varint(s: Seq<u8>, pos: int) -> Option<(nat, int)>
    decreases s.len() - pos,
{
    if pos < 0 || pos >= s.len() {
        None
    } else if s[pos] < 128 {
        Some(((s[pos] as nat), pos + 1))
    } else {
        match parse_varint(s, pos + 1) {
            None => None,
            Some((v, end)) => Some((((s[pos] - 128) as nat + 128 * v), end)),
        }
    }
}

/// Appends the wire form of `n`.
pub fn push_varint(out: &mut Vec<u8>, n: u64)
    ensures
        final(out)@ == old(out)@ + varint(n as nat),
    decreases n,
{
    if n < 128 {
        out.push(n as u8);
        proof {
            assert(final(out)@ =~= old(out)@ + varint(n as nat));
        }
    } else {
        out.push((n % 128 + 128) as u8);
        push_varint(out, n / 128);
        proof {
            assert(final(out)@ =~= old(out)@ + varint(n as nat));
        }
    }
}

/// Reads one varint starting at `pos`, exactly as `parse_varint` denotes;
/// a value over 64 bits is an overflow error.
pub fn read_varint(bytes: &Vec<u8>, pos: usize) -> (r: Result<(u64, usize), DecodeError>)
    ensures
        parse_varint(bytes@, pos as int) is None ==> r == Err::<(u64, usize), DecodeError>(
            DecodeError::UnexpectedEnd,
        ),
        parse_varint(bytes@, pos as int) matches Some((v, end)) ==> {
            &&& v < 0x10000000000000000 ==> (r matches Ok(o) && o.0 == v && o.1 == end)
            &&& v >= 0x10000000000000000 ==> r == Err::<(u64, usize), DecodeError>(
                DecodeError::Overflow,
            )
        },
        r matches Ok((v, end)) ==> pos < end <= bytes@.len(),
    decreases bytes@.len() - pos,
{
    if pos >= bytes.len() {
        return Err(DecodeError::UnexpectedEnd);
    }
    let b = bytes[pos];
    if b < 128 {
        Ok((b as u64, pos + 1))
    } else {
        let low = b - 128;
        match read_varint(bytes, pos + 1) {
            Err(e) => Err(e),
            Ok((rest, end)) => {
                if rest > (u64::MAX - low as u64) / 128 {
                    proof {
                        let v = (parse_varint(bytes@, pos as int)->Some_0).0;
                        let vrest = (parse_varint(bytes@, pos as int + 1)->Some_0).0;
                        assert(v == low + 128 * vrest);
                        assert(v >= 0x10000000000000000) by (nonlinear_arith)
                            requires
                                v == low + 128 * vrest,
                                vrest == rest,
                                rest > (0xffffffffffffffffu64 - low as u64) / 128,
                                low < 128,
                        ;
                    }
                    Err(DecodeError::Overflow)
                } else {
                    proof {
                        assert(low as u64 + 128 * rest <= u64::MAX) by (nonlinear_arith)
                            requires
                                rest <= (0xffffffffffffffffu64 - low as u64) / 128,
                                low < 128,
                        ;
                    }
                    Ok((low as u64 + 128 * rest, end))
                }
            },
        }
    }
}

/// The wire form of any number parses back to exactly that number, wherever
/// it stands inside a longer byte string.
pub proof fn lemma_parse_varint_of_encoding(s: Seq<u8>, pos: int, n: nat)
    requires
        0 <= pos,
        pos + varint(n).len() <= s.len(),
        s.subrange(pos, pos + varint(n).len() as int) == varint(n),
    ensures
        parse_varint(s, pos) == Some((n, pos + varint(n).len() as int)),
    decreases n,
{
    vstd::arithmetic::div_mod::lemma_fundamental_div_mod(n as int, 128);
    if n < 128 {
        assert(s[pos] == varint(n)[0]);
    } else {
        let len = varint(n).len() as int;
        let sublen = varint(n / 128).len() as int;
        assert(s[pos] == varint(n)[0]);
        assert(s.subrange(pos + 1, pos + 1 + sublen) =~= varint(n / 128)) by {
            assert(forall|i: int|
                0 <= i < sublen ==> s.subrange(pos + 1, pos + 1 + sublen)[i] == s[pos + 1 + i]
                    && #[trigger] varint(n / 128)[i] == varint(n)[i + 1]);
        }
        lemma_parse_varint_of_encoding(s, pos + 1, n / 128);
    }
}

/// Appends all bytes of `data`.
pub fn push_slice(out: &mut Vec<u8>, data: &Vec<u8>)
    ensures
        final(out)@ == old(out)@ + data@,
{
    let mut i: usize = 0;
    while i < data.len()
        invariant
            i <= data@.len(),
            out@ == old(out)@ + data@.subrange(0, i as int),
        decreases data@.len() - i,
    {
        out.push(data[i]);
        i = i + 1;
        proof {
            assert(out@ =~= old(out)@ + data@.subrange(0, i as int));
        }
    }
    proof {
        assert(out@ =~= old(out)@ + data@);
    }
}

/// The wire form of a length-delimited byte string: its length as a varint,
/// then the bytes themselves.
pub open spec fn delimited(data: Seq<u8>) -> Seq<u8> {
    varint(data.len()) + data
}

/// Appends the length-delimited wire form of `data`.
pub fn push_delimited(out: &mut Vec<u8>, data: &Vec<u8>)
    ensures
        final(out)@ == old(out)@ + delimited(data@),
{
    push_varint(out, data.len() as u64);
    push_slice(out, data);
    proof {
        assert(final(out)@ =~= old(out)@ + delimited(data@));
    }
}

/// What a length-delimited byte string starting at `pos` denotes, and where
/// it ends.
pub open spec fn parse_delimited(s: Seq<u8>, pos: int) -> Option<(Seq<u8>, int)> {
    match parse_varint(s, pos) {
        None => None,
        Some((len, mid)) => if len < 0x10000000000000000 && mid + len <= s.len() {
            Some((s.subrange(mid, mid + len), mid + len as int))
        } else {
            None
        },
    }
}

/// Reads one length-delimited byte string starting at `pos`, exactly as
/// `parse_delimited` denotes.
pub fn read_delimited(bytes: &Vec<u8>, pos: usize) -> (r: Result<(Vec<u8>, usize), DecodeError>)
    ensures
        parse_delimited(bytes@, pos as int) is None ==> r is Err,
        parse_delimited(bytes@, pos as int) matches Some((data, end)) ==> r matches Ok(o)
            && o.0@ == data && o.1 == end,
        r matches Ok(o) ==> pos < o.1 <= bytes@.len(),
{
    let (len, mid) = match read_varint(bytes, pos) {
        Ok(v) => v,
        Err(e) => {
            return Err(e);
        },
    };
    let total = bytes.len();
    if len > (total - mid) as u64 {
        return Err(DecodeError::UnexpectedEnd);
    }
    let len = len as usize;
    let mut data: Vec<u8> = Vec::new();
    let mut i: usize = 0;
    while i < len
        invariant
            i <= len,
            mid + len <= total,
            total == bytes@.len(),
            data@ == bytes@.subrange(mid as int, mid as int + i as int),
        decreases len - i,
    {
        data.push(bytes[mid + i]);
        i = i + 1;
        proof {
            assert(data@ =~= bytes@.subrange(mid as int, mid as int + i as int));
        }
    }
    Ok((data, mid + len))
}

/// The length-delimited wire form of any byte string parses back to exactly
/// that byte string, wherever it stands inside a longer byte string.
pub proof fn lemma_parse_delimited_of_encoding(s: Seq<u8>, pos: int, data: Seq<u8>)
    requires
        0 <= pos,
        pos + delimited(data).len() <= s.len(),
        s.subrange(pos, pos + delimited(data).len() as int) == delimited(data),
        data.len() < 0x10000000000000000,
    ensures
        parse_delimited(s, pos) == Some((data, pos + delimited(data).len() as int)),
{
    let vlen = varint(data.len()).len() as int;
    let dlen = delimited(data).len() as int;
    assert(s.subrange(pos, pos + vlen) =~= varint(data.len())) by {
        assert(forall|i: int|
            0 <= i < vlen ==> s.subrange(pos, pos + vlen)[i] == s[pos + i] && #[trigger] varint(
                data.len(),
            )[i] == delimited(data)[i]);
    }
    lemma_parse_varint_of_encoding(s, pos, data.len());
    assert(s.subrange(pos + vlen, pos + dlen) =~= data) by {
        assert(forall|i: int|
            0 <= i < data.len() ==> s.subrange(pos + vlen, pos + dlen)[i] == s[pos + vlen + i]
                && #[trigger] data[i] == delimited(data)[i + vlen]);
    }
}

/// Compares two byte strings for equality.
pub fn bytes_eq(a: &Vec<u8>, b: &Vec<u8>) -> (r: bool)
    ensures
        r == (a@ == b@),
{
    if a.len() != b.len() {
        proof {
            assert(a@ != b@);
        }
        return false;
    }
    let mut i: usize = 0;
    while i < a.len()
        invariant
            i <= a@.len(),
            a@.len() == b@.len(),
            forall|j: int| 0 <= j < i ==> a@[j] == b@[j],
        decreases a@.len() - i,
    {
        if a[i] != b[i] {
            proof {
                assert(a@ != b@);
            }
            return false;
        }
        i = i + 1;
    }
    proof {
        assert(a@ =~= b@);
    }
    true
}

} // verus!
