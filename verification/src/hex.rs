//! Hexadecimal byte strings as used by the Stratum V1 wire format.
//!
//! Binary payload fields (job ids, coinbase parts, merkle hashes) travel
//! as lowercase hex strings; 32-bit header fields travel as eight hex
//! digits holding the value's bytes in little-endian order, distinct
//! from the big-endian convention used elsewhere in Bitcoin wire
//! formats.

use vstd::prelude::*;

verus! {

/// Is `c` the ASCII code of a hexadecimal digit (either case)?
pub open spec fn is_hex_digit(c: u8) -> bool {
    (0x30 <= c <= 0x39) || (0x61 <= c <= 0x66) || (0x41 <= c <= 0x46)
}

/// Numeric value of the ASCII hex digit `c`.
pub open spec fn hex_digit_value(c: u8) -> u8
    recommends
        is_hex_digit(c),
{
    if 0x30 <= c <= 0x39 {
        (c - 0x30) as u8
    } else if 0x61 <= c <= 0x66 {
        (c - 0x61 + 10) as u8
    } else {
        (c - 0x41 + 10) as u8
    }
}

/// Lowercase ASCII hex digit for a value below 16.
pub open spec fn hex_digit_of(v: u8) -> u8
    recommends
        v < 16,
{
    if v < 10 {
        (0x30 + v) as u8
    } else {
        (0x61 + v - 10) as u8
    }
}

/// A well-formed hex string: even length, hex digits throughout.
pub open spec fn is_hex_string(s: Seq<u8>) -> bool {
    s.len() % 2 == 0 && (forall|i: int| 0 <= i < s.len() ==> is_hex_digit(s[i]))
}

/// Lowercase hex encoding of a byte string, two digits per byte.
pub open spec fn hex_encoding_of(bs: Seq<u8>) -> Seq<u8> {
    Seq::new(
        2 * bs.len(),
        |i: int|
            if i % 2 == 0 {
                hex_digit_of(bs[i / 2] / 16)
            } else {
                hex_digit_of(bs[i / 2] % 16)
            },
    )
}

/// Bytes denoted by a hex string, one byte per digit pair.
pub open spec fn hex_decoding_of(s: Seq<u8>) -> Seq<u8>
    recommends
        is_hex_string(s),
{
    Seq::new(
        s.len() / 2,
        |i: int| (hex_digit_value(s[2 * i]) * 16 + hex_digit_value(s[2 * i + 1])) as u8,
    )
}

/// The 32-bit value whose little-endian byte order is `bs`.
pub open spec fn u32_of_le_bytes(bs: Seq<u8>) -> u32
    recommends
        bs.len() == 4,
{
    (bs[0] + bs[1] * 0x100 + bs[2] * 0x1_0000 + bs[3] * 0x100_0000) as u32
}

/// The little-endian byte order of a 32-bit value.
pub open spec fn le_bytes_of_u32(v: u32) -> Seq<u8> {
    seq![
        (v % 0x100) as u8,
        ((v / 0x100) % 0x100) as u8,
        ((v / 0x1_0000) % 0x100) as u8,
        ((v / 0x100_0000) % 0x100) as u8,
    ]
}

/// Encode a byte string as lowercase hex, two digits per byte.
pub fn encode_hex(bs: &[u8]) -> (r: Vec<u8>)
    ensures
        r@ == hex_encoding_of(bs@),
        is_hex_string(r@),
{
    let mut r: Vec<u8> = Vec::new();
    let mut i: usize = 0;
    while i < bs.len()
        invariant
            0 <= i <= bs@.len(),
            r@.len() == 2 * i,
            forall|j: int| 0 <= j < r@.len() ==> r@[j] == hex_encoding_of(bs@)[j],
        decreases bs@.len() - i,
    {
        let b = bs[i];
        r.push(hex_digit_exec(b / 16));
        r.push(hex_digit_exec(b % 16));
        i += 1;
    }
    assert(r@ =~= hex_encoding_of(bs@));
    assert forall|j: int| 0 <= j < hex_encoding_of(bs@).len() implies is_hex_digit(
        hex_encoding_of(bs@)[j],
    ) by {
        let b = bs@[j / 2];
        assert(b / 16 < 16 && b % 16 < 16);
    }
    r
}

/// Lowercase hex digit of a value below 16.
fn hex_digit_exec(v: u8) -> (r: u8)
    requires
        v < 16,
    ensures
        r == hex_digit_of(v),
        is_hex_digit(r),
{
    if v < 10 {
        0x30 + v
    } else {
        0x61 + v - 10
    }
}

/// Numeric value of an ASCII hex digit, or `None` for any other byte.
pub(crate) fn hex_value_exec(c: u8) -> (r: Option<u8>)
    ensures
        match r {
            Some(v) => is_hex_digit(c) && v == hex_digit_value(c) && v < 16,
            None => !is_hex_digit(c),
        },
{
    if 0x30 <= c && c <= 0x39 {
        Some(c - 0x30)
    } else if 0x61 <= c && c <= 0x66 {
        Some(c - 0x61 + 10)
    } else if 0x41 <= c && c <= 0x46 {
        Some(c - 0x41 + 10)
    } else {
        None
    }
}

/// Decode a hex string into bytes; `None` exactly when `s` is not a
/// well-formed hex string.
pub fn decode_hex(s: &[u8]) -> (r: Option<Vec<u8>>)
    ensures
        match r {
            Some(bs) => is_hex_string(s@) && bs@ == hex_decoding_of(s@),
            None => !is_hex_string(s@),
        },
{
    if s.len() % 2 != 0 {
        return None;
    }
    let mut bs: Vec<u8> = Vec::new();
    let mut i: usize = 0;
    while i < s.len()
        invariant
            0 <= i <= s@.len(),
            i % 2 == 0,
            s@.len() % 2 == 0,
            bs@.len() == i / 2,
            forall|j: int| 0 <= j < i ==> is_hex_digit(s@[j]),
            forall|j: int| 0 <= j < bs@.len() ==> bs@[j] == hex_decoding_of(s@)[j],
        decreases s@.len() - i,
    {
        let hi = match hex_value_exec(s[i]) {
            Some(v) => v,
            None => {
                return None;
            },
        };
        let lo = match hex_value_exec(s[i + 1]) {
            Some(v) => v,
            None => {
                return None;
            },
        };
        bs.push(hi * 16 + lo);
        i += 2;
    }
    assert(bs@ =~= hex_decoding_of(s@));
    Some(bs)
}

/// Round trip: hex-encoding a byte string and decoding it again yields
/// the same bytes.
pub proof fn lemma_hex_round_trip(bs: Seq<u8>)
    ensures
        is_hex_string(hex_encoding_of(bs)),
        hex_decoding_of(hex_encoding_of(bs)) == bs,
{
    let e = hex_encoding_of(bs);
    assert forall|i: int| 0 <= i < e.len() implies is_hex_digit(e[i]) by {
        let b = bs[i / 2];
        assert(b / 16 < 16 && b % 16 < 16);
    }
    assert forall|i: int| 0 <= i < bs.len() implies hex_decoding_of(e)[i] == bs[i] by {
        let b = bs[i];
        assert(e[2 * i] == hex_digit_of(b / 16));
        assert(e[2 * i + 1] == hex_digit_of(b % 16));
        assert(hex_digit_value(hex_digit_of(b / 16)) == b / 16);
        assert(hex_digit_value(hex_digit_of(b % 16)) == b % 16);
        assert((b / 16) * 16 + b % 16 == b) by (nonlinear_arith);
    }
    assert(hex_decoding_of(e) =~= bs);
}

/// A binary payload field carried on the wire as a hex string.
#[derive(Clone, Debug, PartialEq, Eq)]
pub struct HexBytes(pub Vec<u8>);

impl HexBytes {
    /// The raw bytes the hex string denotes.
    pub fn as_bytes(&self) -> (r: &[u8])
        ensures
            r@ == self.0@,
    {
        self.0.as_slice()
    }

    /// Wire form: lowercase hex, two digits per byte.
    pub fn to_wire(&self) -> (r: Vec<u8>)
        ensures
            r@ == hex_encoding_of(self.0@),
    {
        encode_hex(self.0.as_slice())
    }

    /// Parse a wire hex string; `None` exactly when it is malformed.
    pub fn from_wire(s: &[u8]) -> (r: Option<HexBytes>)
        ensures
            match r {
                Some(h) => is_hex_string(s@) && h.0@ == hex_decoding_of(s@),
                None => !is_hex_string(s@),
            },
    {
        match decode_hex(s) {
            Some(bs) => Some(HexBytes(bs)),
            None => None,
        }
    }
}

/// A 32-bit field carried on the wire as eight hex digits in
/// little-endian byte order: `"01000000"` denotes 1, `"000000ff"`
/// denotes `0xff00_0000`.
#[derive(Clone, Copy, Debug, PartialEq, Eq)]
pub struct HexU32Le(pub u32);

impl HexU32Le {
    /// The decoded machine value.
    pub fn value(&self) -> (r: u32)
        ensures
            r == self.0,
    {
        self.0
    }

    /// Wire form: the value's bytes, least significant first, hex encoded.
    pub fn to_wire(&self) -> (r: Vec<u8>)
        ensures
            r@ == hex_encoding_of(le_bytes_of_u32(self.0)),
    {
        let v = self.0;
        let mut bs: Vec<u8> = Vec::new();
        bs.push((v % 0x100) as u8);
        bs.push(((v / 0x100) % 0x100) as u8);
        bs.push(((v / 0x1_0000) % 0x100) as u8);
        bs.push(((v / 0x100_0000) % 0x100) as u8);
        assert(bs@ =~= le_bytes_of_u32(v));
        encode_hex(bs.as_slice())
    }

    /// Parse eight little-endian hex digits; `None` exactly when the
    /// string is not eight hex digits.
    pub fn from_wire(s: &[u8]) -> (r: Option<HexU32Le>)
        ensures
            match r {
                Some(h) => s@.len() == 8 && is_hex_string(s@) && h.0 == u32_of_le_bytes(
                    hex_decoding_of(s@),
                ),
                None => !(s@.len() == 8 && is_hex_string(s@)),
            },
    {
        if s.len() != 8 {
            return None;
        }
        let bs = match decode_hex(s) {
            Some(bs) => bs,
            None => {
                return None;
            },
        };
        let v: u32 = bs[0] as u32 + bs[1] as u32 * 0x100 + bs[2] as u32 * 0x1_0000 + bs[3] as u32
            * 0x100_0000;
        Some(HexU32Le(v))
    }
}

/// Round trip: a 32-bit value's little-endian bytes decode back to the
/// same value.
pub proof fn lemma_u32_le_round_trip(v: u32)
    ensures
        le_bytes_of_u32(v).len() == 4,
        u32_of_le_bytes(le_bytes_of_u32(v)) == v,
{
    let bs = le_bytes_of_u32(v);
    assert(bs[0] + bs[1] * 0x100 + bs[2] * 0x1_0000 + bs[3] * 0x100_0000 == v) by (nonlinear_arith)
        requires
            bs[0] == v % 0x100 && bs[1] == (v / 0x100) % 0x100 && bs[2] == (v / 0x1_0000) % 0x100
                && bs[3] == (v / 0x100_0000) % 0x100 && v <= 0xffff_ffff,
    ;
}

} // verus!
