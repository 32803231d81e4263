//! Byte-level codec for wire frames: JSON text in, JSON text out.
//!
//! One logical message is one JSON document; delimiting records on the
//! stream (newlines) belongs to the transport.  The encoder emits
//! compact JSON with a minimal escape set (`\"`, `\\`, and `\u00XX`
//! for control bytes); the parser accepts the standard escape set
//! (`\" \\ \/ \b \f \n \r \t \uXXXX`, each code unit decoded to its
//! UTF-8 bytes) and insignificant whitespace between tokens.  A number
//! token that is a plain integer in the 64-bit signed range becomes
//! that integer; any other number token (fractional, with an exponent,
//! or out of range) is carried verbatim as its lexeme, so a fractional
//! difficulty passes through the codec to its reader untouched.

use vstd::prelude::*;
use vstd::string::StrSliceExecFns;
use vstd::string::StringSliceAdditionalSpecFns;

use crate::framing::{classify, jv_of_frame, Frame, FrameError, FrameV};
use crate::hex::hex_digit_of;
use crate::json::{json_view, JsonValue, Jv};

verus! {

/// Decimal digits of a non-negative integer, most significant first;
/// empty for zero.
pub open spec fn dec_digits(n: int) -> Seq<u8>
    decreases n,
{
    if n <= 0 {
        Seq::empty()
    } else {
        dec_digits(n / 10).push((0x30 + n % 10) as u8)
    }
}

/// Decimal text of an integer.
pub open spec fn dec_enc(n: int) -> Seq<u8> {
    if n == 0 {
        seq![0x30u8]
    } else if n < 0 {
        seq![0x2du8] + dec_digits(-n)
    } else {
        dec_digits(n)
    }
}

/// Encoding of one string byte: quote and backslash get a backslash
/// escape, control bytes a `\u00XX` escape, all else passes through.
pub open spec fn esc_char(b: u8) -> Seq<u8> {
    if b == 0x22 {
        seq![0x5cu8, 0x22]
    } else if b == 0x5c {
        seq![0x5cu8, 0x5c]
    } else if b < 0x20 {
        seq![0x5cu8, 0x75, 0x30, 0x30, hex_digit_of(b / 16), hex_digit_of(b % 16)]
    } else {
        seq![b]
    }
}

/// Encoding of a string body from position `i` on.
pub open spec fn str_enc_from(s: Seq<u8>, i: int) -> Seq<u8>
    decreases s.len() - i,
{
    if i < 0 || i >= s.len() {
        Seq::empty()
    } else {
        esc_char(s[i]) + str_enc_from(s, i + 1)
    }
}

/// Encoding of a JSON value as compact JSON text.
pub open spec fn jv_enc(v: Jv) -> Seq<u8>
    decreases v, 0int, 0int,
{
    match v {
        Jv::Null => "null".spec_bytes(),
        Jv::Bool(b) => if b {
            "true".spec_bytes()
        } else {
            "false".spec_bytes()
        },
        Jv::Num(n) => dec_enc(n),
        Jv::NumRaw(s) => s,
        Jv::Str(s) => seq![0x22u8] + str_enc_from(s, 0) + seq![0x22u8],
        Jv::Arr(items) => seq![0x5bu8] + arr_enc_from(items, 0) + seq![0x5du8],
        Jv::Obj(entries) => seq![0x7bu8] + obj_enc_from(entries, 0) + seq![0x7du8],
    }
}

/// Encoding of array elements from index `i` on, comma separated.
pub open spec fn arr_enc_from(items: Seq<Jv>, i: int) -> Seq<u8>
    decreases items, items.len() - i, 1int,
{
    if i < 0 || i >= items.len() {
        Seq::empty()
    } else if i == items.len() - 1 {
        jv_enc(items[i])
    } else {
        jv_enc(items[i]) + seq![0x2cu8] + arr_enc_from(items, i + 1)
    }
}

/// Encoding of object members from index `i` on, comma separated.
pub open spec fn obj_enc_from(entries: Seq<(Seq<u8>, Jv)>, i: int) -> Seq<u8>
    decreases entries, entries.len() - i, 1int,
{
    if i < 0 || i >= entries.len() {
        Seq::empty()
    } else {
        let member = seq![0x22u8] + str_enc_from(entries[i].0, 0) + seq![0x22u8, 0x3a] + jv_enc(
            entries[i].1,
        );
        if i == entries.len() - 1 {
            member
        } else {
            member + seq![0x2cu8] + obj_enc_from(entries, i + 1)
        }
    }
}

/// Append a slice to the output.
fn push_bytes(out: &mut Vec<u8>, s: &[u8])
    ensures
        final(out)@ == old(out)@ + s@,
{
    let mut i: usize = 0;
    while i < s.len()
        invariant
            0 <= i <= s@.len(),
            out@ == old(out)@ + s@.take(i as int),
        decreases s@.len() - i,
    {
        out.push(s[i]);
        proof {
            assert(old(out)@ + s@.take(i + 1) =~= (old(out)@ + s@.take(i as int)).push(
                s@[i as int],
            ));
        }
        i += 1;
    }
    proof {
        assert(s@.take(s@.len() as int) =~= s@);
    }
}

/// Append the decimal digits of `n`, most significant first.
fn push_digits(out: &mut Vec<u8>, n: u64)
    ensures
        final(out)@ == old(out)@ + dec_digits(n as int),
{
    let mut ds: Vec<u8> = Vec::new();
    let mut m: u64 = n;
    while m > 0
        invariant
            dec_digits(n as int) == dec_digits(m as int) + ds@,
        decreases m,
    {
        let d: u8 = (m % 10) as u8;
        ds.insert(0, 0x30 + d);
        proof {
            assert(dec_digits(m as int) == dec_digits(m as int / 10).push((0x30 + m as int % 10) as u8));
            assert(dec_digits(m as int / 10).push((0x30 + m as int % 10) as u8) + ds@ =~= dec_digits(
                m as int / 10,
            ) + seq![(0x30 + m as int % 10) as u8] + ds@);
            assert(seq![(0x30 + m as int % 10) as u8] + ds@ =~= ds@.insert(0, (0x30 + d) as u8));
        }
        m = m / 10;
    }
    proof {
        assert(dec_digits(0int) + ds@ =~= ds@);
    }
    push_bytes(out, ds.as_slice());
}

/// Append the decimal text of `n`.
fn push_num(out: &mut Vec<u8>, n: i64)
    ensures
        final(out)@ == old(out)@ + dec_enc(n as int),
{
    if n == 0 {
        out.push(0x30);
        proof {
            assert(old(out)@.push(0x30u8) =~= old(out)@ + dec_enc(0int));
        }
    } else if n < 0 {
        out.push(0x2d);
        let m: u64 = ((-(n + 1)) as u64) + 1;
        proof {
            assert(m as int == -(n as int));
        }
        push_digits(out, m);
        proof {
            assert(old(out)@.push(0x2du8) + dec_digits(m as int) =~= old(out)@ + (seq![0x2du8]
                + dec_digits(-(n as int))));
        }
    } else {
        push_digits(out, n as u64);
    }
}

/// Append the quoted, escaped form of a string body.
fn push_str(out: &mut Vec<u8>, s: &[u8])
    ensures
        final(out)@ == old(out)@ + seq![0x22u8] + str_enc_from(s@, 0) + seq![0x22u8],
{
    out.push(0x22);
    let ghost base = out@;
    let mut i: usize = 0;
    while i < s.len()
        invariant
            0 <= i <= s@.len(),
            base == old(out)@.push(0x22u8),
            str_enc_from(s@, 0) == out@.skip(base.len() as int) + str_enc_from(s@, i as int),
            out@.len() >= base.len(),
            out@.take(base.len() as int) == base,
        decreases s@.len() - i,
    {
        let ghost pre = out@;
        let b = s[i];
        if b == 0x22 {
            out.push(0x5c);
            out.push(0x22);
        } else if b == 0x5c {
            out.push(0x5c);
            out.push(0x5c);
        } else if b < 0x20 {
            out.push(0x5c);
            out.push(0x75);
            out.push(0x30);
            out.push(0x30);
            out.push(0x30 + b / 16);
            let lo = b % 16;
            out.push(
                if lo < 10 {
                    0x30 + lo
                } else {
                    0x61 + lo - 10
                },
            );
            proof {
                assert(hex_digit_of(b / 16) == (0x30 + b / 16) as u8);
            }
        } else {
            out.push(b);
        }
        proof {
            assert(out@ =~= pre + esc_char(s@[i as int]));
            assert(str_enc_from(s@, i as int) == esc_char(s@[i as int]) + str_enc_from(
                s@,
                i + 1,
            ));
            assert(out@ + str_enc_from(s@, i + 1) =~= pre + str_enc_from(s@, i as int));
            assert(out@.skip(base.len() as int) =~= pre.skip(base.len() as int) + esc_char(
                s@[i as int],
            ));
            assert(str_enc_from(s@, 0) =~= out@.skip(base.len() as int) + str_enc_from(s@, i + 1));
            assert(out@.take(base.len() as int) =~= base);
        }
        i += 1;
    }
    proof {
        assert(str_enc_from(s@, s@.len() as int) =~= Seq::<u8>::empty());
        assert(out@.skip(base.len() as int) =~= str_enc_from(s@, 0));
        assert(out@ =~= out@.take(base.len() as int) + out@.skip(base.len() as int));
        assert(out@ =~= base + str_enc_from(s@, 0));
    }
    out.push(0x22);
    proof {
        assert(out@ =~= old(out)@ + seq![0x22u8] + str_enc_from(s@, 0) + seq![0x22u8]);
    }
}

/// Append the JSON text of a value.
#[verifier::loop_isolation(false)]
#[verifier::rlimit(100)]
fn json_encode_into(v: &JsonValue, out: &mut Vec<u8>)
    ensures
        final(out)@ == old(out)@ + jv_enc(json_view(*v)),
    decreases v,
{
    match v {
        JsonValue::Null => {
            push_bytes(out, ("null").as_bytes());
        },
        JsonValue::Bool(b) => {
            if *b {
                push_bytes(out, ("true").as_bytes());
            } else {
                push_bytes(out, ("false").as_bytes());
            }
        },
        JsonValue::Num(n) => {
            push_num(out, *n);
        },
        JsonValue::NumRaw(s) => {
            push_bytes(out, s.as_slice());
        },
        JsonValue::Str(s) => {
            push_str(out, s.as_slice());
            proof {
                assert(old(out)@ + seq![0x22u8] + str_enc_from(s@, 0) + seq![0x22u8] =~= old(out)@
                    + jv_enc(json_view(*v)));
            }
        },
        JsonValue::Arr(items) => {
            out.push(0x5b);
            let ghost jitems = json_view(*v)->Arr_0;
            let ghost base = out@;
            proof {
                assert(out@.skip(base.len() as int) =~= Seq::<u8>::empty());
                assert(out@.skip(base.len() as int) + arr_enc_from(jitems, 0) =~= arr_enc_from(
                    jitems,
                    0,
                ));
                assert(out@.take(base.len() as int) =~= base);
            }
            let mut i: usize = 0;
            while i < items.len()
                invariant
                    0 <= i <= items@.len(),
                    base == old(out)@.push(0x5bu8),
                    jitems.len() == items@.len(),
                    arr_enc_from(jitems, 0) =~= out@.skip(base.len() as int) + arr_enc_from(
                        jitems,
                        i as int,
                    ),
                    out@.len() >= base.len(),
                    out@.take(base.len() as int) == base,
                decreases items@.len() - i,
            {
                proof {
                    crate::json::lemma_json_view_arr(*items, i as int);
                }
                let ghost pre = out@;
                json_encode_into(&items[i], out);
                if i + 1 < items.len() {
                    out.push(0x2c);
                    proof {
                        assert(out@ =~= pre + jv_enc(jitems[i as int]) + seq![0x2cu8]);
                        assert(arr_enc_from(jitems, i as int) == jv_enc(jitems[i as int]) + seq![
                            0x2cu8,
                        ] + arr_enc_from(jitems, i + 1));
                        assert(out@.skip(base.len() as int) =~= pre.skip(base.len() as int)
                            + jv_enc(jitems[i as int]) + seq![0x2cu8]);
                        assert(arr_enc_from(jitems, 0) =~= out@.skip(base.len() as int)
                            + arr_enc_from(jitems, i + 1));
                        assert(out@.take(base.len() as int) =~= base);
                    }
                } else {
                    proof {
                        assert(out@ =~= pre + jv_enc(jitems[i as int]));
                        assert(arr_enc_from(jitems, i as int) == jv_enc(jitems[i as int]));
                        assert(arr_enc_from(jitems, i + 1) =~= Seq::<u8>::empty());
                        assert(out@.skip(base.len() as int) =~= pre.skip(base.len() as int)
                            + jv_enc(jitems[i as int]));
                        assert(arr_enc_from(jitems, 0) =~= out@.skip(base.len() as int)
                            + arr_enc_from(jitems, i + 1));
                        assert(out@.take(base.len() as int) =~= base);
                    }
                }
                i += 1;
            }
            proof {
                assert(arr_enc_from(jitems, items@.len() as int) =~= Seq::<u8>::empty());
                assert(out@.skip(base.len() as int) =~= arr_enc_from(jitems, 0));
                assert(out@ =~= out@.take(base.len() as int) + out@.skip(base.len() as int));
                assert(out@ =~= base + arr_enc_from(jitems, 0));
            }
            out.push(0x5d);
            proof {
                assert(out@ =~= old(out)@ + seq![0x5bu8] + arr_enc_from(jitems, 0) + seq![0x5du8]);
            }
        },
        JsonValue::Obj(entries) => {
            out.push(0x7b);
            let ghost jentries = json_view(*v)->Obj_0;
            let ghost base = out@;
            proof {
                assert(out@.skip(base.len() as int) =~= Seq::<u8>::empty());
                assert(out@.skip(base.len() as int) + obj_enc_from(jentries, 0) =~= obj_enc_from(
                    jentries,
                    0,
                ));
                assert(json_view(*v) == Jv::Obj(crate::json::obj_view(entries@)));
                assert(jentries.len() == entries@.len());
                assert(out@.take(base.len() as int) =~= base);
            }
            let mut i: usize = 0;
            while i < entries.len()
                invariant
                    0 <= i <= entries@.len(),
                    base == old(out)@.push(0x7bu8),
                    jentries.len() == entries@.len(),
                    obj_enc_from(jentries, 0) =~= out@.skip(base.len() as int) + obj_enc_from(
                        jentries,
                        i as int,
                    ),
                    out@.len() >= base.len(),
                    out@.take(base.len() as int) == base,
                decreases entries@.len() - i,
            {
                proof {
                    crate::json::lemma_json_view_obj(*entries, i as int);
                }
                let ghost pre = out@;
                push_str(out, entries[i].0.as_slice());
                out.push(0x3a);
                json_encode_into(&entries[i].1, out);
                let ghost member = seq![0x22u8] + str_enc_from(jentries[i as int].0, 0) + seq![
                    0x22u8,
                    0x3a,
                ] + jv_enc(jentries[i as int].1);
                proof {
                    assert(out@ =~= pre + member);
                }
                if i + 1 < entries.len() {
                    out.push(0x2c);
                    proof {
                        assert(obj_enc_from(jentries, i as int) == member + seq![0x2cu8]
                            + obj_enc_from(jentries, i + 1));
                        assert(out@.skip(base.len() as int) =~= pre.skip(base.len() as int) + member
                            + seq![0x2cu8]);
                        assert(obj_enc_from(jentries, 0) =~= out@.skip(base.len() as int)
                            + obj_enc_from(jentries, i + 1));
                        assert(out@.take(base.len() as int) =~= base);
                    }
                } else {
                    proof {
                        assert(obj_enc_from(jentries, i as int) == member);
                        assert(obj_enc_from(jentries, i + 1) =~= Seq::<u8>::empty());
                        assert(out@.skip(base.len() as int) =~= pre.skip(base.len() as int)
                            + member);
                        assert(obj_enc_from(jentries, 0) =~= out@.skip(base.len() as int)
                            + obj_enc_from(jentries, i + 1));
                        assert(out@.take(base.len() as int) =~= base);
                    }
                }
                i += 1;
            }
            proof {
                assert(obj_enc_from(jentries, entries@.len() as int) =~= Seq::<u8>::empty());
                assert(out@.skip(base.len() as int) =~= obj_enc_from(jentries, 0));
                assert(out@ =~= out@.take(base.len() as int) + out@.skip(base.len() as int));
                assert(out@ =~= base + obj_enc_from(jentries, 0));
            }
            out.push(0x7d);
            proof {
                assert(out@ =~= old(out)@ + seq![0x7bu8] + obj_enc_from(jentries, 0) + seq![0x7du8]);
            }
        },
    }
}

/// Encode a JSON value as compact JSON text.
pub fn json_encode(v: &JsonValue) -> (r: Vec<u8>)
    ensures
        r@ == jv_enc(json_view(*v)),
{
    let mut out: Vec<u8> = Vec::new();
    json_encode_into(v, &mut out);
    proof {
        assert(Seq::<u8>::empty() + jv_enc(json_view(*v)) =~= jv_enc(json_view(*v)));
    }
    out
}

/// Encode a frame as one compact JSON document.
pub fn encode(f: &Frame) -> (r: Vec<u8>)
    ensures
        r@ == jv_enc(jv_of_frame(f@)),
{
    let v = crate::framing::encode_frame(f);
    json_encode(&v)
}

/// Is `b` insignificant whitespace?
pub open spec fn is_ws(b: u8) -> bool {
    b == 0x20 || b == 0x09 || b == 0x0a || b == 0x0d
}

/// First index at or after `i` holding a non-whitespace byte.
pub open spec fn sp_ws(b: Seq<u8>, i: int) -> int
    decreases b.len() - i,
{
    if 0 <= i < b.len() && is_ws(b[i]) {
        sp_ws(b, i + 1)
    } else {
        i
    }
}

/// Is `c` an ASCII decimal digit?
pub open spec fn is_digit(c: u8) -> bool {
    0x30 <= c <= 0x39
}

/// Digits read from `i` into an accumulator; the value and the index
/// after, or nothing past the 64-bit signed range.
pub open spec fn sp_digits(b: Seq<u8>, i: int, acc: int) -> Option<(int, int)>
    decreases b.len() - i,
{
    if 0 <= i < b.len() && is_digit(b[i]) {
        let acc2 = acc * 10 + (b[i] - 0x30);
        if acc2 > i64::MAX {
            None
        } else {
            sp_digits(b, i + 1, acc2)
        }
    } else {
        Some((acc, i))
    }
}

/// First index at or after `i` holding a non-digit byte.
pub open spec fn sp_digit_run(b: Seq<u8>, i: int) -> int
    decreases b.len() - i,
{
    if 0 <= i < b.len() && is_digit(b[i]) {
        sp_digit_run(b, i + 1)
    } else {
        i
    }
}

/// UTF-8 bytes of a code unit below 0x10000.
pub open spec fn utf8_of_code(c: int) -> Seq<u8>
    recommends
        0 <= c < 0x10000,
{
    if c < 0x80 {
        seq![c as u8]
    } else if c < 0x800 {
        seq![(0xc0 + c / 0x40) as u8, (0x80 + c % 0x40) as u8]
    } else {
        seq![(0xe0 + c / 0x1000) as u8, (0x80 + (c / 0x40) % 0x40) as u8, (0x80 + c % 0x40) as u8]
    }
}

/// A number token at `i`: optional sign, digits, optional fraction,
/// optional exponent.  A plain integer in the 64-bit signed range
/// becomes `Num`; any other well-formed token is kept as its lexeme.
pub open spec fn sp_num(b: Seq<u8>, i: int) -> Option<(Jv, int)> {
    if !(0 <= i < b.len()) {
        None
    } else {
        let neg = b[i] == 0x2d;
        let s = if neg {
            i + 1
        } else {
            i
        };
        if !(s < b.len() && is_digit(b[s])) {
            None
        } else {
            let j1 = sp_digit_run(b, s);
            let has_frac = j1 < b.len() && b[j1] == 0x2e;
            if has_frac && !(j1 + 1 < b.len() && is_digit(b[j1 + 1])) {
                None
            } else {
                let j2 = if has_frac {
                    sp_digit_run(b, j1 + 1)
                } else {
                    j1
                };
                let has_exp = j2 < b.len() && (b[j2] == 0x65 || b[j2] == 0x45);
                let es = if j2 + 1 < b.len() && (b[j2 + 1] == 0x2b || b[j2 + 1] == 0x2d) {
                    j2 + 2
                } else {
                    j2 + 1
                };
                if has_exp && !(es < b.len() && is_digit(b[es])) {
                    None
                } else {
                    let j3 = if has_exp {
                        sp_digit_run(b, es)
                    } else {
                        j2
                    };
                    if !has_frac && !has_exp {
                        match sp_digits(b, s, 0) {
                            Some((v, _)) => Some(
                                (
                                    Jv::Num(
                                        if neg {
                                            -v
                                        } else {
                                            v
                                        },
                                    ),
                                    j1,
                                ),
                            ),
                            None => Some((Jv::NumRaw(b.subrange(i, j1)), j1)),
                        }
                    } else {
                        Some((Jv::NumRaw(b.subrange(i, j3)), j3))
                    }
                }
            }
        }
    }
}

/// A string body from `i` (just after the opening quote) up to its
/// closing quote; escapes are the encoder's set.
pub open spec fn sp_str_body(b: Seq<u8>, i: int, acc: Seq<u8>) -> Option<(Seq<u8>, int)>
    decreases b.len() - i,
{
    if i < 0 || i >= b.len() {
        None
    } else if b[i] == 0x22 {
        Some((acc, i + 1))
    } else if b[i] == 0x5c {
        if i + 1 >= b.len() {
            None
        } else if b[i + 1] == 0x22 {
            sp_str_body(b, i + 2, acc.push(0x22))
        } else if b[i + 1] == 0x5c {
            sp_str_body(b, i + 2, acc.push(0x5c))
        } else if b[i + 1] == 0x2f {
            sp_str_body(b, i + 2, acc.push(0x2f))
        } else if b[i + 1] == 0x62 {
            sp_str_body(b, i + 2, acc.push(0x08))
        } else if b[i + 1] == 0x66 {
            sp_str_body(b, i + 2, acc.push(0x0c))
        } else if b[i + 1] == 0x6e {
            sp_str_body(b, i + 2, acc.push(0x0a))
        } else if b[i + 1] == 0x72 {
            sp_str_body(b, i + 2, acc.push(0x0d))
        } else if b[i + 1] == 0x74 {
            sp_str_body(b, i + 2, acc.push(0x09))
        } else if b[i + 1] == 0x75 {
            if i + 5 < b.len() && crate::hex::is_hex_digit(b[i + 2]) && crate::hex::is_hex_digit(
                b[i + 3],
            ) && crate::hex::is_hex_digit(b[i + 4]) && crate::hex::is_hex_digit(b[i + 5]) {
                let c = crate::hex::hex_digit_value(b[i + 2]) * 0x1000
                    + crate::hex::hex_digit_value(b[i + 3]) * 0x100 + crate::hex::hex_digit_value(
                    b[i + 4],
                ) * 16 + crate::hex::hex_digit_value(b[i + 5]);
                sp_str_body(b, i + 6, acc + utf8_of_code(c))
            } else {
                None
            }
        } else {
            None
        }
    } else if b[i] < 0x20 {
        None
    } else {
        sp_str_body(b, i + 1, acc.push(b[i]))
    }
}

/// A value at `i` (no leading whitespace), with nesting fuel `d`.
pub open spec fn sp_value(b: Seq<u8>, d: int, i: int) -> Option<(Jv, int)>
    decreases d, b.len() - i, 0int,
{
    if d <= 0 || i < 0 || i >= b.len() {
        None
    } else if b[i] == 0x22 {
        match sp_str_body(b, i + 1, Seq::empty()) {
            Some((s, j)) => Some((Jv::Str(s), j)),
            None => None,
        }
    } else if b[i] == 0x5b {
        let j = sp_ws(b, i + 1);
        if 0 <= j < b.len() && b[j] == 0x5d {
            Some((Jv::Arr(Seq::empty()), j + 1))
        } else {
            sp_elems(b, d - 1, j, Seq::empty())
        }
    } else if b[i] == 0x7b {
        let j = sp_ws(b, i + 1);
        if 0 <= j < b.len() && b[j] == 0x7d {
            Some((Jv::Obj(Seq::empty()), j + 1))
        } else {
            sp_members(b, d - 1, j, Seq::empty())
        }
    } else if b[i] == 0x74 {
        if i + 3 < b.len() && b[i + 1] == 0x72 && b[i + 2] == 0x75 && b[i + 3] == 0x65 {
            Some((Jv::Bool(true), i + 4))
        } else {
            None
        }
    } else if b[i] == 0x66 {
        if i + 4 < b.len() && b[i + 1] == 0x61 && b[i + 2] == 0x6c && b[i + 3] == 0x73 && b[i + 4]
            == 0x65 {
            Some((Jv::Bool(false), i + 5))
        } else {
            None
        }
    } else if b[i] == 0x6e {
        if i + 3 < b.len() && b[i + 1] == 0x75 && b[i + 2] == 0x6c && b[i + 3] == 0x6c {
            Some((Jv::Null, i + 4))
        } else {
            None
        }
    } else {
        sp_num(b, i)
    }
}

/// Array elements from `i` (at a value), accumulated into `acc`.
pub open spec fn sp_elems(b: Seq<u8>, d: int, i: int, acc: Seq<Jv>) -> Option<(Jv, int)>
    decreases d, b.len() - i, 1int,
{
    if i < 0 || i > b.len() {
        None
    } else {
        match sp_value(b, d, i) {
            Some((v, j)) => {
                let k = sp_ws(b, j);
                if 0 <= k < b.len() && b[k] == 0x2c {
                    let m = sp_ws(b, k + 1);
                    if i < m <= b.len() {
                        sp_elems(b, d, m, acc.push(v))
                    } else {
                        None
                    }
                } else if 0 <= k < b.len() && b[k] == 0x5d {
                    Some((Jv::Arr(acc.push(v)), k + 1))
                } else {
                    None
                }
            },
            None => None,
        }
    }
}

/// Object members from `i` (at a key), accumulated into `acc`.
pub open spec fn sp_members(b: Seq<u8>, d: int, i: int, acc: Seq<(Seq<u8>, Jv)>) -> Option<
    (Jv, int),
>
    decreases d, b.len() - i, 1int,
{
    if i < 0 || i > b.len() {
        None
    } else if !(i < b.len() && b[i] == 0x22) {
        None
    } else {
        match sp_str_body(b, i + 1, Seq::empty()) {
            Some((key, j)) => {
                let k = sp_ws(b, j);
                if 0 <= k < b.len() && b[k] == 0x3a {
                    let m = sp_ws(b, k + 1);
                    if i < m <= b.len() {
                        match sp_value(b, d, m) {
                            Some((v, j2)) => {
                                let k2 = sp_ws(b, j2);
                                if 0 <= k2 < b.len() && b[k2] == 0x2c {
                                    let m2 = sp_ws(b, k2 + 1);
                                    if i < m2 <= b.len() {
                                        sp_members(b, d, m2, acc.push((key, v)))
                                    } else {
                                        None
                                    }
                                } else if 0 <= k2 < b.len() && b[k2] == 0x7d {
                                    Some((Jv::Obj(acc.push((key, v))), k2 + 1))
                                } else {
                                    None
                                }
                            },
                            None => None,
                        }
                    } else {
                        None
                    }
                } else {
                    None
                }
            },
            None => None,
        }
    }
}

/// A whole JSON document: one value with whitespace around it.
pub open spec fn sp_json(b: Seq<u8>) -> Option<Jv> {
    let i = sp_ws(b, 0);
    match sp_value(b, 64, i) {
        Some((v, j)) => if sp_ws(b, j) == b.len() {
            Some(v)
        } else {
            None
        },
        None => None,
    }
}

/// The frame denoted by a byte string, if any.
pub open spec fn sp_frame(b: Seq<u8>) -> Option<FrameV> {
    match sp_json(b) {
        Some(jv) => classify(jv),
        None => None,
    }
}

/// Skip insignificant whitespace.
fn skip_ws(b: &[u8], i: usize) -> (r: usize)
    requires
        i <= b@.len(),
    ensures
        r == sp_ws(b@, i as int),
        i <= r <= b@.len(),
{
    let mut j = i;
    while j < b.len() && (b[j] == 0x20 || b[j] == 0x09 || b[j] == 0x0a || b[j] == 0x0d)
        invariant
            i <= j <= b@.len(),
            sp_ws(b@, i as int) == sp_ws(b@, j as int),
        decreases b@.len() - j,
    {
        j += 1;
    }
    j
}

/// Read an unsigned digit run.
fn parse_digits(b: &[u8], i: usize) -> (r: Result<(i64, usize), ()>)
    requires
        i <= b@.len(),
    ensures
        match r {
            Ok(p) => sp_digits(b@, i as int, 0) == Some((p.0 as int, p.1 as int)) && i <= p.1
                <= b@.len() && p.0 >= 0,
            Err(_) => sp_digits(b@, i as int, 0) is None,
        },
{
    let mut acc: i64 = 0;
    let mut j = i;
    while j < b.len() && 0x30 <= b[j] && b[j] <= 0x39
        invariant
            i <= j <= b@.len(),
            0 <= acc <= i64::MAX,
            sp_digits(b@, i as int, 0) == sp_digits(b@, j as int, acc as int),
        decreases b@.len() - j,
    {
        let dig: i64 = (b[j] - 0x30) as i64;
        if acc > 922337203685477580 || (acc == 922337203685477580 && dig > 7) {
            proof {
                assert(acc * 10 + dig > i64::MAX);
            }
            return Err(());
        }
        proof {
            assert(acc * 10 + dig <= i64::MAX);
        }
        acc = acc * 10 + dig;
        j += 1;
    }
    Ok((acc, j))
}

/// Find the end of a digit run.
fn digit_run(b: &[u8], i: usize) -> (r: usize)
    requires
        i <= b@.len(),
    ensures
        r == sp_digit_run(b@, i as int),
        i <= r <= b@.len(),
{
    let mut j = i;
    while j < b.len() && 0x30 <= b[j] && b[j] <= 0x39
        invariant
            i <= j <= b@.len(),
            sp_digit_run(b@, i as int) == sp_digit_run(b@, j as int),
        decreases b@.len() - j,
    {
        j += 1;
    }
    j
}

/// Read a number token at `i`.
fn parse_number(b: &[u8], i: usize) -> (r: Result<(JsonValue, usize), ()>)
    requires
        i <= b@.len(),
    ensures
        match r {
            Ok(p) => sp_num(b@, i as int) == Some((json_view(p.0), p.1 as int)) && i <= p.1
                <= b@.len(),
            Err(_) => sp_num(b@, i as int) is None,
        },
{
    if i >= b.len() {
        return Err(());
    }
    let neg = b[i] == 0x2d;
    let s = if neg {
        i + 1
    } else {
        i
    };
    if !(s < b.len() && 0x30 <= b[s] && b[s] <= 0x39) {
        return Err(());
    }
    let j1 = digit_run(b, s);
    let has_frac = j1 < b.len() && b[j1] == 0x2e;
    if has_frac && !(b.len() - j1 > 1 && 0x30 <= b[j1 + 1] && b[j1 + 1] <= 0x39) {
        return Err(());
    }
    let j2 = if has_frac {
        digit_run(b, j1 + 1)
    } else {
        j1
    };
    let has_exp = j2 < b.len() && (b[j2] == 0x65 || b[j2] == 0x45);
    if !has_frac && !has_exp {
        match parse_digits(b, s) {
            Ok((v, _)) => {
                let value = if neg {
                    -v
                } else {
                    v
                };
                Ok((JsonValue::Num(value), j1))
            },
            Err(_) => {
                let lex = vstd::slice::slice_to_vec(vstd::slice::slice_subrange(b, i, j1));
                Ok((JsonValue::NumRaw(lex), j1))
            },
        }
    } else if !has_exp {
        let lex = vstd::slice::slice_to_vec(vstd::slice::slice_subrange(b, i, j2));
        Ok((JsonValue::NumRaw(lex), j2))
    } else {
        let es = if b.len() - j2 > 1 && (b[j2 + 1] == 0x2b || b[j2 + 1] == 0x2d) {
            j2 + 2
        } else {
            j2 + 1
        };
        if !(es < b.len() && 0x30 <= b[es] && b[es] <= 0x39) {
            return Err(());
        }
        let j3 = digit_run(b, es);
        let lex = vstd::slice::slice_to_vec(vstd::slice::slice_subrange(b, i, j3));
        Ok((JsonValue::NumRaw(lex), j3))
    }
}

/// Read a string body after its opening quote.
fn parse_str_body(b: &[u8], i: usize) -> (r: Result<(Vec<u8>, usize), ()>)
    requires
        i <= b@.len(),
    ensures
        match r {
            Ok(p) => sp_str_body(b@, i as int, Seq::empty()) == Some((p.0@, p.1 as int)) && i <= p.1
                <= b@.len(),
            Err(_) => sp_str_body(b@, i as int, Seq::empty()) is None,
        },
{
    let mut acc: Vec<u8> = Vec::new();
    let mut j = i;
    loop
        invariant
            i <= j <= b@.len(),
            sp_str_body(b@, i as int, Seq::empty()) == sp_str_body(b@, j as int, acc@),
        decreases b@.len() - j,
    {
        if j >= b.len() {
            return Err(());
        }
        let c = b[j];
        if c == 0x22 {
            return Ok((acc, j + 1));
        } else if c == 0x5c {
            if b.len() - j <= 1 {
                return Err(());
            }
            let e = b[j + 1];
            if e == 0x22 {
                acc.push(0x22);
                j += 2;
            } else if e == 0x5c {
                acc.push(0x5c);
                j += 2;
            } else if e == 0x2f {
                acc.push(0x2f);
                j += 2;
            } else if e == 0x62 {
                acc.push(0x08);
                j += 2;
            } else if e == 0x66 {
                acc.push(0x0c);
                j += 2;
            } else if e == 0x6e {
                acc.push(0x0a);
                j += 2;
            } else if e == 0x72 {
                acc.push(0x0d);
                j += 2;
            } else if e == 0x74 {
                acc.push(0x09);
                j += 2;
            } else if e == 0x75 {
                if b.len() - j <= 5 {
                    return Err(());
                }
                let h3 = match crate::hex::hex_value_exec(b[j + 2]) {
                    Some(v) => v,
                    None => {
                        return Err(());
                    },
                };
                let h2 = match crate::hex::hex_value_exec(b[j + 3]) {
                    Some(v) => v,
                    None => {
                        return Err(());
                    },
                };
                let h1 = match crate::hex::hex_value_exec(b[j + 4]) {
                    Some(v) => v,
                    None => {
                        return Err(());
                    },
                };
                let h0 = match crate::hex::hex_value_exec(b[j + 5]) {
                    Some(v) => v,
                    None => {
                        return Err(());
                    },
                };
                let code: u32 = (h3 as u32) * 0x1000 + (h2 as u32) * 0x100 + (h1 as u32) * 16 + (
                h0 as u32);
                let ghost pre = acc@;
                if code < 0x80 {
                    acc.push(code as u8);
                } else if code < 0x800 {
                    acc.push((0xc0 + code / 0x40) as u8);
                    acc.push((0x80 + code % 0x40) as u8);
                } else {
                    acc.push((0xe0 + code / 0x1000) as u8);
                    acc.push((0x80 + (code / 0x40) % 0x40) as u8);
                    acc.push((0x80 + code % 0x40) as u8);
                }
                proof {
                    assert(acc@ =~= pre + utf8_of_code(code as int));
                }
                j += 6;
            } else {
                return Err(());
            }
        } else if c < 0x20 {
            return Err(());
        } else {
            acc.push(c);
            j += 1;
        }
    }
}

/// Read one value at `i` (no leading whitespace) with nesting fuel
/// `d`.
#[verifier::loop_isolation(false)]
#[verifier::rlimit(100)]
fn parse_value(b: &[u8], d: u32, i: usize) -> (r: Result<(JsonValue, usize), ()>)
    requires
        i <= b@.len(),
    ensures
        match r {
            Ok(p) => sp_value(b@, d as int, i as int) == Some((json_view(p.0), p.1 as int)) && i
                <= p.1 <= b@.len(),
            Err(_) => sp_value(b@, d as int, i as int) is None,
        },
    decreases d,
{
    if d == 0 || i >= b.len() {
        return Err(());
    }
    let c = b[i];
    if c == 0x22 {
        match parse_str_body(b, i + 1) {
            Ok((s, j)) => Ok((JsonValue::Str(s), j)),
            Err(_) => Err(()),
        }
    } else if c == 0x5b {
        let j = skip_ws(b, i + 1);
        if j < b.len() && b[j] == 0x5d {
            let out: Vec<JsonValue> = Vec::new();
            let r = JsonValue::Arr(out);
            proof {
                assert(json_view(r)->Arr_0 =~= Seq::<Jv>::empty());
            }
            return Ok((r, j + 1));
        }
        let mut out: Vec<JsonValue> = Vec::new();
        let ghost mut gacc: Seq<Jv> = Seq::empty();
        let mut cur: usize = j;
        loop
            invariant
                j <= cur <= b@.len(),
                d >= 1,
                sp_elems(b@, d as int - 1, j as int, Seq::empty()) == sp_elems(
                    b@,
                    d as int - 1,
                    cur as int,
                    gacc,
                ),
                gacc.len() == out@.len(),
                forall|q: int| 0 <= q < out@.len() ==> json_view(out@[q]) == gacc[q],
            decreases b@.len() - cur,
        {
            let (v, j2) = match parse_value(b, d - 1, cur) {
                Ok(p) => p,
                Err(_) => {
                    return Err(());
                },
            };
            let k = skip_ws(b, j2);
            if k < b.len() && b[k] == 0x2c {
                let m = skip_ws(b, k + 1);
                if m <= cur {
                    return Err(());
                }
                proof {
                    gacc = gacc.push(json_view(v));
                }
                out.push(v);
                cur = m;
            } else if k < b.len() && b[k] == 0x5d {
                proof {
                    gacc = gacc.push(json_view(v));
                }
                out.push(v);
                let r = JsonValue::Arr(out);
                proof {
                    assert forall|q: int| 0 <= q < out@.len() implies json_view(r)->Arr_0[q]
                        == gacc[q] by {
                        crate::json::lemma_json_view_arr(out, q);
                    }
                    assert(json_view(r)->Arr_0 =~= gacc);
                }
                return Ok((r, k + 1));
            } else {
                return Err(());
            }
        }
    } else if c == 0x7b {
        let j = skip_ws(b, i + 1);
        if j < b.len() && b[j] == 0x7d {
            let out: Vec<(Vec<u8>, JsonValue)> = Vec::new();
            let r = JsonValue::Obj(out);
            proof {
                assert(json_view(r) == Jv::Obj(crate::json::obj_view(out@)));
                assert(json_view(r)->Obj_0 =~= Seq::<(Seq<u8>, Jv)>::empty());
            }
            return Ok((r, j + 1));
        }
        let mut out: Vec<(Vec<u8>, JsonValue)> = Vec::new();
        let ghost mut gacc: Seq<(Seq<u8>, Jv)> = Seq::empty();
        let mut cur: usize = j;
        loop
            invariant
                j <= cur <= b@.len(),
                d >= 1,
                sp_members(b@, d as int - 1, j as int, Seq::empty()) == sp_members(
                    b@,
                    d as int - 1,
                    cur as int,
                    gacc,
                ),
                gacc.len() == out@.len(),
                forall|q: int|
                    0 <= q < out@.len() ==> out@[q].0@ == gacc[q].0 && json_view(out@[q].1)
                        == gacc[q].1,
            decreases b@.len() - cur,
        {
            if !(cur < b.len() && b[cur] == 0x22) {
                return Err(());
            }
            let (key, j1) = match parse_str_body(b, cur + 1) {
                Ok(p) => p,
                Err(_) => {
                    return Err(());
                },
            };
            let k = skip_ws(b, j1);
            if !(k < b.len() && b[k] == 0x3a) {
                return Err(());
            }
            let m = skip_ws(b, k + 1);
            if m <= cur {
                return Err(());
            }
            let (v, j2) = match parse_value(b, d - 1, m) {
                Ok(p) => p,
                Err(_) => {
                    return Err(());
                },
            };
            let k2 = skip_ws(b, j2);
            if k2 < b.len() && b[k2] == 0x2c {
                let m2 = skip_ws(b, k2 + 1);
                if m2 <= cur {
                    return Err(());
                }
                proof {
                    gacc = gacc.push((key@, json_view(v)));
                }
                out.push((key, v));
                cur = m2;
            } else if k2 < b.len() && b[k2] == 0x7d {
                proof {
                    gacc = gacc.push((key@, json_view(v)));
                }
                out.push((key, v));
                let r = JsonValue::Obj(out);
                proof {
                    assert(json_view(r) == Jv::Obj(crate::json::obj_view(out@)));
                    assert(json_view(r)->Obj_0.len() == out@.len());
                    assert forall|q: int| 0 <= q < out@.len() implies json_view(r)->Obj_0[q]
                        == gacc[q] by {
                        crate::json::lemma_json_view_obj(out, q);
                    }
                    assert(json_view(r)->Obj_0 =~= gacc);
                }
                return Ok((r, k2 + 1));
            } else {
                return Err(());
            }
        }
    } else if c == 0x74 {
        if b.len() - i > 3 && b[i + 1] == 0x72 && b[i + 2] == 0x75 && b[i + 3] == 0x65 {
            Ok((JsonValue::Bool(true), i + 4))
        } else {
            Err(())
        }
    } else if c == 0x66 {
        if b.len() - i > 4 && b[i + 1] == 0x61 && b[i + 2] == 0x6c && b[i + 3] == 0x73 && b[i + 4]
            == 0x65 {
            Ok((JsonValue::Bool(false), i + 5))
        } else {
            Err(())
        }
    } else if c == 0x6e {
        if b.len() - i > 3 && b[i + 1] == 0x75 && b[i + 2] == 0x6c && b[i + 3] == 0x6c {
            Ok((JsonValue::Null, i + 4))
        } else {
            Err(())
        }
    } else {
        parse_number(b, i)
    }
}

/// Parse one JSON document; `None` exactly when the bytes are not in
/// the codec's grammar.
pub fn json_parse(b: &[u8]) -> (r: Option<JsonValue>)
    ensures
        match r {
            Some(v) => sp_json(b@) == Some(json_view(v)),
            None => sp_json(b@) is None,
        },
{
    let i = skip_ws(b, 0);
    match parse_value(b, 64, i) {
        Ok((v, j)) => {
            let k = skip_ws(b, j);
            if k == b.len() {
                Some(v)
            } else {
                None
            }
        },
        Err(_) => None,
    }
}

/// Decode one JSON document as a frame.
pub fn decode(b: &[u8]) -> (r: Result<Frame, FrameError>)
    ensures
        match r {
            Ok(f) => sp_frame(b@) == Some(f@) && f.wf(),
            Err(_) => sp_frame(b@) is None,
        },
{
    match json_parse(b) {
        Some(v) => crate::framing::decode_frame(&v),
        None => Err(FrameError::Malformed(("input is not valid JSON").as_bytes_vec())),
    }
}

} // verus!
