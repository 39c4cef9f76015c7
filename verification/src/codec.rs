//! The payload codec: typed component values to bytes and back.
//!
//! Component state crosses the wire as opaque payload bytes inside a
//! component record.  The supported payload types form a closed tagged
//! union; each is encoded as one tag byte followed by its fixed-width
//! little-endian fields.  Decoding is exact: a buffer beginning with the
//! encoding of a value decodes to that value and to nothing else, and a
//! malformed buffer is rejected rather than guessed at.

use vstd::prelude::*;
use crate::id::Entity;

verus! {

/// A typed component payload: the closed union of payload types the codec
/// supports.
#[derive(Clone, Copy, Debug, PartialEq, Eq, Structural)]
pub enum ComponentValue {
    /// A marker component: presence is the whole state.
    Marker,
    /// A boolean state.
    Flag(bool),
    /// An unsigned scalar state.
    Scalar(u64),
    /// A two-dimensional position, the interpolated kind of state.
    Position(i64, i64),
    /// A reference to another replicated entity; the receiver translates
    /// it through the entity map before writing it to local state.
    EntityRef(Entity),
}

/// Why an incoming buffer was rejected.
#[derive(Clone, Copy, Debug, PartialEq, Eq, Structural)]
pub enum ProtocolError {
    /// The buffer ends before the value it announces does.
    Truncated,
    /// The leading tag byte names no supported payload type.
    UnknownTag,
    /// A field holds a value the type does not allow.
    BadValue,
}

/// The eight little-endian bytes of `x`.
pub open spec fn u64_le_bytes(x: u64) -> Seq<u8> {
    seq![
        (x & 0xff) as u8,
        ((x >> 8) & 0xff) as u8,
        ((x >> 16) & 0xff) as u8,
        ((x >> 24) & 0xff) as u8,
        ((x >> 32) & 0xff) as u8,
        ((x >> 40) & 0xff) as u8,
        ((x >> 48) & 0xff) as u8,
        ((x >> 56) & 0xff) as u8,
    ]
}

/// The u64 read from eight little-endian bytes.
pub open spec fn u64_from_le(b: Seq<u8>) -> u64
    recommends
        b.len() == 8,
{
    (b[0] as u64) | (b[1] as u64) << 8 | (b[2] as u64) << 16 | (b[3] as u64) << 24 | (
    b[4] as u64) << 32 | (b[5] as u64) << 40 | (b[6] as u64) << 48 | (b[7] as u64) << 56
}

/// Reading back the little-endian bytes of `x` yields `x`.
pub proof fn lemma_u64_le_round_trip(x: u64)
    ensures
        u64_from_le(u64_le_bytes(x)) == x,
{
    let b = u64_le_bytes(x);
    assert((((x & 0xff) as u8) as u64) | ((((x >> 8) & 0xff) as u8) as u64) << 8 | ((((x >> 16)
        & 0xff) as u8) as u64) << 16 | ((((x >> 24) & 0xff) as u8) as u64) << 24 | ((((x >> 32)
        & 0xff) as u8) as u64) << 32 | ((((x >> 40) & 0xff) as u8) as u64) << 40 | ((((x >> 48)
        & 0xff) as u8) as u64) << 48 | ((((x >> 56) & 0xff) as u8) as u64) << 56 == x)
        by (bit_vector);
}

/// Casting an i64 through u64 and back is the identity.
pub proof fn lemma_i64_cast_round_trip(x: i64)
    ensures
        (x as u64) as i64 == x,
{
    assert((x as u64) as i64 == x) by (bit_vector);
}

/// The wire bytes of a component value: one tag byte, then the value's
/// fields in little-endian order.
pub open spec fn value_bytes(v: ComponentValue) -> Seq<u8> {
    match v {
        ComponentValue::Marker => seq![0u8],
        ComponentValue::Flag(f) => seq![1u8, if f { 1u8 } else { 0u8 }],
        ComponentValue::Scalar(x) => seq![2u8] + u64_le_bytes(x),
        ComponentValue::Position(x, y) => seq![3u8] + u64_le_bytes(x as u64) + u64_le_bytes(
            y as u64,
        ),
        ComponentValue::EntityRef(e) => seq![4u8] + u64_le_bytes(e.0),
    }
}

/// What a buffer beginning at a value boundary holds: the decoded value and
/// the number of bytes it occupies, or the error a malformed prefix earns.
pub open spec fn spec_decode_value(b: Seq<u8>) -> Result<(ComponentValue, int), ProtocolError> {
    if b.len() < 1 {
        Err(ProtocolError::Truncated)
    } else if b[0] == 0 {
        Ok((ComponentValue::Marker, 1))
    } else if b[0] == 1 {
        if b.len() < 2 {
            Err(ProtocolError::Truncated)
        } else if b[1] == 0 {
            Ok((ComponentValue::Flag(false), 2))
        } else if b[1] == 1 {
            Ok((ComponentValue::Flag(true), 2))
        } else {
            Err(ProtocolError::BadValue)
        }
    } else if b[0] == 2 {
        if b.len() < 9 {
            Err(ProtocolError::Truncated)
        } else {
            Ok((ComponentValue::Scalar(u64_from_le(b.subrange(1, 9))), 9))
        }
    } else if b[0] == 3 {
        if b.len() < 17 {
            Err(ProtocolError::Truncated)
        } else {
            Ok(
                (
                    ComponentValue::Position(
                        u64_from_le(b.subrange(1, 9)) as i64,
                        u64_from_le(b.subrange(9, 17)) as i64,
                    ),
                    17,
                ),
            )
        }
    } else if b[0] == 4 {
        if b.len() < 9 {
            Err(ProtocolError::Truncated)
        } else {
            Ok((ComponentValue::EntityRef(Entity(u64_from_le(b.subrange(1, 9)))), 9))
        }
    } else {
        Err(ProtocolError::UnknownTag)
    }
}

/// Round trip: decoding a buffer that begins with the encoding of any
/// supported value yields that very value, consuming exactly its bytes,
/// whatever follows them.
pub proof fn lemma_value_round_trip(v: ComponentValue, rest: Seq<u8>)
    ensures
        spec_decode_value(value_bytes(v) + rest) == Ok::<_, ProtocolError>(
            (v, value_bytes(v).len() as int),
        ),
{
    let b = value_bytes(v) + rest;
    match v {
        ComponentValue::Marker => {
            assert(b[0] == 0);
        },
        ComponentValue::Flag(f) => {
            assert(b[0] == 1);
            if f {
                assert(b[1] == 1);
            } else {
                assert(b[1] == 0);
            }
        },
        ComponentValue::Scalar(x) => {
            assert(b[0] == 2);
            assert(b.subrange(1, 9) =~= u64_le_bytes(x));
            lemma_u64_le_round_trip(x);
        },
        ComponentValue::Position(x, y) => {
            assert(b[0] == 3);
            assert(b.subrange(1, 9) =~= u64_le_bytes(x as u64));
            assert(b.subrange(9, 17) =~= u64_le_bytes(y as u64));
            lemma_u64_le_round_trip(x as u64);
            lemma_u64_le_round_trip(y as u64);
            lemma_i64_cast_round_trip(x);
            lemma_i64_cast_round_trip(y);
        },
        ComponentValue::EntityRef(e) => {
            assert(b[0] == 4);
            assert(b.subrange(1, 9) =~= u64_le_bytes(e.0));
            lemma_u64_le_round_trip(e.0);
        },
    }
}

/// Append the eight little-endian bytes of `x`.
fn push_u64_le(out: &mut Vec<u8>, x: u64)
    ensures
        final(out)@ =~= old(out)@ + u64_le_bytes(x),
{
    out.push((x & 0xff) as u8);
    out.push(((x >> 8) & 0xff) as u8);
    out.push(((x >> 16) & 0xff) as u8);
    out.push(((x >> 24) & 0xff) as u8);
    out.push(((x >> 32) & 0xff) as u8);
    out.push(((x >> 40) & 0xff) as u8);
    out.push(((x >> 48) & 0xff) as u8);
    out.push(((x >> 56) & 0xff) as u8);
}

/// Read the u64 whose eight little-endian bytes start at `pos`.
fn read_u64_le(b: &Vec<u8>, pos: usize) -> (r: u64)
    requires
        pos + 8 <= b@.len(),
    ensures
        r == u64_from_le(b@.subrange(pos as int, pos + 8)),
{
    let n = b.len();
    assert(pos + 8 <= n);
    let r = (b[pos] as u64) | (b[pos + 1] as u64) << 8 | (b[pos + 2] as u64) << 16 | (b[pos
        + 3] as u64) << 24 | (b[pos + 4] as u64) << 32 | (b[pos + 5] as u64) << 40 | (b[pos
        + 6] as u64) << 48 | (b[pos + 7] as u64) << 56;
    proof {
        let s = b@.subrange(pos as int, pos + 8);
        assert(s[0] == b@[pos as int] && s[1] == b@[pos + 1] && s[2] == b@[pos + 2] && s[3]
            == b@[pos + 3] && s[4] == b@[pos + 4] && s[5] == b@[pos + 5] && s[6] == b@[pos + 6]
            && s[7] == b@[pos + 7]);
    }
    r
}

/// Append the wire bytes of `v` to `out`.
pub fn encode_value(v: &ComponentValue, out: &mut Vec<u8>)
    ensures
        final(out)@ =~= old(out)@ + value_bytes(*v),
{
    match v {
        ComponentValue::Marker => {
            out.push(0u8);
        },
        ComponentValue::Flag(f) => {
            out.push(1u8);
            out.push(if *f { 1u8 } else { 0u8 });
        },
        ComponentValue::Scalar(x) => {
            out.push(2u8);
            push_u64_le(out, *x);
        },
        ComponentValue::Position(x, y) => {
            out.push(3u8);
            push_u64_le(out, *x as u64);
            push_u64_le(out, *y as u64);
        },
        ComponentValue::EntityRef(e) => {
            out.push(4u8);
            push_u64_le(out, e.0);
        },
    }
}

/// Encode `v` into a fresh buffer.
pub fn encode_value_to_vec(v: &ComponentValue) -> (r: Vec<u8>)
    ensures
        r@ =~= value_bytes(*v),
{
    let mut out: Vec<u8> = Vec::new();
    encode_value(v, &mut out);
    out
}

/// Decode one component value starting at `pos`.
///
/// The result is exactly what [`spec_decode_value`] says of the bytes from
/// `pos` on: the decoded value with the position just past it, or the
/// protocol fault that makes the buffer malformed.
pub fn decode_value(b: &Vec<u8>, pos: usize) -> (r: Result<(ComponentValue, usize), ProtocolError>)
    requires
        pos <= b@.len(),
    ensures
        match r {
            Ok((v, newpos)) => pos < newpos <= b@.len() && spec_decode_value(
                b@.skip(pos as int),
            ) == Ok::<_, ProtocolError>((v, newpos - pos)),
            Err(e) => spec_decode_value(b@.skip(pos as int)) == Err::<(ComponentValue, int), _>(e),
        },
{
    let ghost tail = b@.skip(pos as int);
    let n = b.len();
    if pos >= n {
        return Err(ProtocolError::Truncated);
    }
    let tag = b[pos];
    proof {
        assert(tail[0] == b@[pos as int]);
    }
    if tag == 0 {
        Ok((ComponentValue::Marker, pos + 1))
    } else if tag == 1 {
        if n - pos < 2 {
            return Err(ProtocolError::Truncated);
        }
        let f = b[pos + 1];
        proof {
            assert(tail[1] == b@[pos + 1]);
        }
        if f == 0 {
            Ok((ComponentValue::Flag(false), pos + 2))
        } else if f == 1 {
            Ok((ComponentValue::Flag(true), pos + 2))
        } else {
            Err(ProtocolError::BadValue)
        }
    } else if tag == 2 {
        if n - pos < 9 {
            return Err(ProtocolError::Truncated);
        }
        let x = read_u64_le(b, pos + 1);
        proof {
            assert(tail.subrange(1, 9) =~= b@.subrange(pos + 1, pos + 9));
        }
        Ok((ComponentValue::Scalar(x), pos + 9))
    } else if tag == 3 {
        if n - pos < 17 {
            return Err(ProtocolError::Truncated);
        }
        let x = read_u64_le(b, pos + 1);
        let y = read_u64_le(b, pos + 9);
        proof {
            assert(tail.subrange(1, 9) =~= b@.subrange(pos + 1, pos + 9));
            assert(tail.subrange(9, 17) =~= b@.subrange(pos + 9, pos + 17));
        }
        Ok((ComponentValue::Position(x as i64, y as i64), pos + 17))
    } else if tag == 4 {
        if n - pos < 9 {
            return Err(ProtocolError::Truncated);
        }
        let x = read_u64_le(b, pos + 1);
        proof {
            assert(tail.subrange(1, 9) =~= b@.subrange(pos + 1, pos + 9));
        }
        Ok((ComponentValue::EntityRef(Entity(x)), pos + 9))
    } else {
        Err(ProtocolError::UnknownTag)
    }
}

/// Decode a buffer that should hold exactly one value: the round trip
/// partner of [`encode_value_to_vec`].  Trailing bytes after the value are
/// a protocol fault.
pub fn decode_value_exact(b: &Vec<u8>) -> (r: Result<ComponentValue, ProtocolError>)
    ensures
        match r {
            Ok(v) => spec_decode_value(b@) == Ok::<_, ProtocolError>((v, b@.len() as int)),
            Err(e) => spec_decode_value(b@) is Err || (spec_decode_value(b@) matches Ok((v, n))
                && n < b@.len()),
        },
        b@.len() > 0 && (exists|v: ComponentValue| b@ =~= value_bytes(v)) ==> (r matches Ok(v)
            && b@ =~= value_bytes(v)),
{
    proof {
        assert(b@.skip(0) =~= b@);
        if exists|v: ComponentValue| b@ =~= value_bytes(v) {
            let v = choose|v: ComponentValue| b@ =~= value_bytes(v);
            lemma_value_round_trip(v, Seq::empty());
            assert(value_bytes(v) + Seq::<u8>::empty() =~= b@);
            lemma_value_bytes_injective();
        }
    }
    match decode_value(b, 0) {
        Ok((v, newpos)) => {
            if newpos == b.len() {
                Ok(v)
            } else {
                Err(ProtocolError::BadValue)
            }
        },
        Err(e) => Err(e),
    }
}

/// Two values with the same wire bytes are the same value: the encoding is
/// injective, so nothing is lost on the way to bytes.
pub proof fn lemma_value_bytes_injective()
    ensures
        forall|v1: ComponentValue, v2: ComponentValue|
            value_bytes(v1) =~= value_bytes(v2) ==> v1 == v2,
{
    assert forall|v1: ComponentValue, v2: ComponentValue|
        value_bytes(v1) =~= value_bytes(v2) implies v1 == v2 by {
        lemma_value_round_trip(v1, Seq::empty());
        lemma_value_round_trip(v2, Seq::empty());
        assert(value_bytes(v1) + Seq::<u8>::empty() =~= value_bytes(v1));
        assert(value_bytes(v2) + Seq::<u8>::empty() =~= value_bytes(v2));
    }
}

} // verus!
