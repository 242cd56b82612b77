//! The protocol's laws: byte-exact round trips, encoding minimality,
//! atom-variant preservation, and the pid creation threshold, proved
//! from the encoder's and decoder's specifications.
//!
//! Each round-trip lemma takes an arbitrary trailing byte string, so
//! the laws compose: a value's encoding decodes back to the value
//! wherever it stands in a stream.

use vstd::prelude::*;

use crate::consts::{
    ERL_INTEGER_EXT, ERL_NEW_PID_EXT, ERL_PID_EXT, ERL_SMALL_BIG_EXT, ERL_SMALL_INTEGER_EXT,
    I27_MAX, I27_MIN,
};
use crate::de::{
    atom_parse, float_parse, num_parse, parse_sint, parse_uint, small_big_parse, str_parse,
    widen_sint,
};
use crate::error::Error;
use crate::io::{be16, be32, be64, rep32, sign32, u16_of, u32_of, u64_of, Number};
use crate::term::{
    atom_bytes, atom_len_ok, atom_tag, atom_wf, float_bytes, le_min_bytes, le_val,
    lemma_le_min_bytes_len8, pid_bytes, pid_wf, port_bytes, port_node, port_wf,
    msg_arity, msg_bytes, msg_op, msg_wf, pow256, ref_bytes, ref_wf, ref_words, sint_bytes,
    str_bytes, trace_bytes, trace_wf, uint_bytes, words_bytes, AtomV, MsgV, PidV, PortV, RefV,
    TraceV,
};

verus! {

// --- Inversions of the byte arithmetic ----------------------------------

/// Two big-endian bytes read back as the value they were written
/// from.
pub proof fn lemma_be16_inv(v: u16)
    ensures
        u16_of(be16(v)[0], be16(v)[1]) == v,
{
}

/// Four big-endian bytes read back as the value they were written
/// from.
pub proof fn lemma_be32_inv(v: u32)
    ensures
        u32_of(be32(v)[0], be32(v)[1], be32(v)[2], be32(v)[3]) == v,
{
}

/// Eight big-endian bytes read back as the value they were written
/// from.
pub proof fn lemma_be64_inv(v: u64)
    ensures
        u64_of(
            be64(v)[0],
            be64(v)[1],
            be64(v)[2],
            be64(v)[3],
            be64(v)[4],
            be64(v)[5],
            be64(v)[6],
            be64(v)[7],
        ) == v,
{
}

/// The two's-complement word of a signed value reads back as that
/// value.
pub proof fn lemma_sign_rep32(v: i32)
    ensures
        sign32(rep32(v) as int) == v,
{
}

/// The minimal little-endian magnitude reads back as its value.
pub proof fn lemma_le_roundtrip(v: u64)
    ensures
        le_val(le_min_bytes(v)) == v,
    decreases v,
{
    if v != 0 {
        lemma_le_roundtrip(v / 256);
        assert(le_min_bytes(v) == seq![(v % 256) as u8] + le_min_bytes(v / 256));
        assert(le_min_bytes(v)[0] == (v % 256) as u8);
        assert(le_min_bytes(v).skip(1) =~= le_min_bytes(v / 256));
    }
}

/// The minimal magnitude is minimal: its last byte is not zero and
/// no shorter byte string could hold the value.
pub proof fn lemma_le_min_tight(v: u64)
    requires
        v > 0,
    ensures
        le_min_bytes(v).len() >= 1,
        le_min_bytes(v).last() != 0,
        pow256((le_min_bytes(v).len() - 1) as nat) <= v < pow256(le_min_bytes(v).len()),
    decreases v,
{
    if v < 256 {
        assert(le_min_bytes(v / 256) =~= Seq::<u8>::empty());
        assert(le_min_bytes(v) =~= seq![(v % 256) as u8]);
        assert(le_min_bytes(v).last() == (v % 256) as u8);
        assert(pow256(0) == 1);
        assert(pow256(1) == 256);
    } else {
        lemma_le_min_tight(v / 256);
        let t = le_min_bytes(v / 256);
        assert(le_min_bytes(v) == seq![(v % 256) as u8] + t);
        assert(le_min_bytes(v).last() == t.last());
        let n = t.len();
        assert(pow256((n - 1) as nat) <= v / 256 < pow256(n));
        assert(pow256(n) == 256 * pow256((n - 1) as nat));
        assert(pow256((n + 1) as nat) == 256 * pow256(n));
        assert(v < 256 * pow256(n)) by (nonlinear_arith)
            requires
                v / 256 < pow256(n),
                pow256(n) >= 1,
                v >= 0,
        ;
        assert(v >= 256 * pow256((n - 1) as nat)) by (nonlinear_arith)
            requires
                v / 256 >= pow256((n - 1) as nat),
                v >= 0,
        ;
    }
}

// --- Round trip, numeric ------------------------------------------------

/// Decoding an encoded unsigned integer yields the value back, for
/// any unsigned target that can hold it, wherever the encoding
/// stands in a stream.
pub proof fn lemma_uint_roundtrip(v: u64, max: int, rest: Seq<u8>)
    requires
        v <= max,
    ensures
        parse_uint(uint_bytes(v) + rest, max) == Ok::<(int, int), Error>(
            (v as int, uint_bytes(v).len() as int),
        ),
{
    reveal(parse_uint);
    let b = uint_bytes(v);
    let s = b + rest;
    if v <= 255 {
        assert(s[0] == ERL_SMALL_INTEGER_EXT);
        assert(s[1] == v as u8);
        assert(num_parse(s) == Ok::<(Number, int), Error>((Number::U8(v as u8), 2)));
    } else if v <= I27_MAX as u64 {
        let w = v as u32;
        assert(b == seq![ERL_INTEGER_EXT] + be32(w));
        assert(s[0] == ERL_INTEGER_EXT);
        assert(s.len() >= 5);
        assert(s[1] == be32(w)[0] && s[2] == be32(w)[1] && s[3] == be32(w)[2] && s[4] == be32(
            w,
        )[3]);
        lemma_be32_inv(w);
        assert(sign32(u32_of(s[1], s[2], s[3], s[4])) == v);
        assert(num_parse(s) == Ok::<(Number, int), Error>((Number::I32(v as i32), 5)));
    } else {
        let m = le_min_bytes(v);
        lemma_le_min_bytes_len8(v);
        lemma_le_roundtrip(v);
        assert(b == seq![ERL_SMALL_BIG_EXT, m.len() as u8, 0u8] + m);
        assert(s[0] == ERL_SMALL_BIG_EXT);
        let t = s.skip(1);
        assert(t =~= seq![m.len() as u8, 0u8] + m + rest);
        assert(t[0] == m.len() as u8);
        assert(t[1] == 0);
        assert(t.len() >= 2 + m.len());
        assert(t.subrange(2, 2 + m.len() as int) =~= m);
        assert(small_big_parse(t) == Ok::<(Number, int), Error>(
            (Number::SmallBig(v, 0), 2 + m.len() as int),
        ));
        assert(num_parse(s) == Ok::<(Number, int), Error>(
            (Number::SmallBig(v, 0), 3 + m.len() as int),
        ));
        assert(b.len() == 3 + m.len());
    }
}

/// Decoding an encoded signed integer yields the value back, for any
/// signed target whose range admits it. The two unencodable values
/// (`i32::MIN` for a 32-bit target, `i64::MIN` for a 64-bit one) are
/// excluded: their magnitudes do not fit.
pub proof fn lemma_sint_roundtrip(v: i64, max: int, rest: Seq<u8>)
    requires
        -max - 1 <= v <= max,
        v != i64::MIN,
        v < I27_MIN ==> -max <= v,
    ensures
        parse_sint(sint_bytes(v) + rest, max) == Ok::<(int, int), Error>(
            (v as int, sint_bytes(v).len() as int),
        ),
{
    reveal(parse_sint);
    let b = sint_bytes(v);
    let s = b + rest;
    if 0 <= v && v <= 255 {
        assert(s[0] == ERL_SMALL_INTEGER_EXT);
        assert(s[1] == v as u8);
        assert(num_parse(s) == Ok::<(Number, int), Error>((Number::U8(v as u8), 2)));
    } else if I27_MIN as i64 <= v && v <= I27_MAX as i64 {
        let w = rep32(v as i32);
        assert(b == seq![ERL_INTEGER_EXT] + be32(w));
        assert(s[0] == ERL_INTEGER_EXT);
        assert(s.len() >= 5);
        assert(s[1] == be32(w)[0] && s[2] == be32(w)[1] && s[3] == be32(w)[2] && s[4] == be32(
            w,
        )[3]);
        lemma_be32_inv(w);
        lemma_sign_rep32(v as i32);
        assert(num_parse(s) == Ok::<(Number, int), Error>((Number::I32(v as i32), 5)));
    } else {
        let mag: u64 = if v > 0 {
            v as u64
        } else {
            (-v) as u64
        };
        let sgn: u8 = if v > 0 {
            0
        } else {
            1
        };
        let m = le_min_bytes(mag);
        lemma_le_min_bytes_len8(mag);
        lemma_le_roundtrip(mag);
        assert(b == seq![ERL_SMALL_BIG_EXT, m.len() as u8, sgn] + m);
        assert(s[0] == ERL_SMALL_BIG_EXT);
        let t = s.skip(1);
        assert(t =~= seq![m.len() as u8, sgn] + m + rest);
        assert(t[0] == m.len() as u8);
        assert(t[1] == sgn);
        assert(t.len() >= 2 + m.len());
        assert(t.subrange(2, 2 + m.len() as int) =~= m);
        assert(small_big_parse(t) == Ok::<(Number, int), Error>(
            (Number::SmallBig(mag, sgn), 2 + m.len() as int),
        ));
        assert(num_parse(s) == Ok::<(Number, int), Error>(
            (Number::SmallBig(mag, sgn), 3 + m.len() as int),
        ));
        assert(b.len() == 3 + m.len());
        assert(widen_sint(Number::SmallBig(mag, sgn), max) == Ok::<int, Error>(v as int));
    }
}

/// Round trip for `u8` values.
pub proof fn lemma_roundtrip_u8(v: u8, rest: Seq<u8>)
    ensures
        parse_uint(uint_bytes(v as u64) + rest, 255) == Ok::<(int, int), Error>(
            (v as int, uint_bytes(v as u64).len() as int),
        ),
{
    lemma_uint_roundtrip(v as u64, 255, rest);
}

/// Round trip for `u16` values.
pub proof fn lemma_roundtrip_u16(v: u16, rest: Seq<u8>)
    ensures
        parse_uint(uint_bytes(v as u64) + rest, 65535) == Ok::<(int, int), Error>(
            (v as int, uint_bytes(v as u64).len() as int),
        ),
{
    lemma_uint_roundtrip(v as u64, 65535, rest);
}

/// Round trip for `u32` values.
pub proof fn lemma_roundtrip_u32(v: u32, rest: Seq<u8>)
    ensures
        parse_uint(uint_bytes(v as u64) + rest, u32::MAX as int) == Ok::<(int, int), Error>(
            (v as int, uint_bytes(v as u64).len() as int),
        ),
{
    lemma_uint_roundtrip(v as u64, u32::MAX as int, rest);
}

/// Round trip for `u64` values.
pub proof fn lemma_roundtrip_u64(v: u64, rest: Seq<u8>)
    ensures
        parse_uint(uint_bytes(v) + rest, u64::MAX as int) == Ok::<(int, int), Error>(
            (v as int, uint_bytes(v).len() as int),
        ),
{
    lemma_uint_roundtrip(v, u64::MAX as int, rest);
}

/// Round trip for `i8` values.
pub proof fn lemma_roundtrip_i8(v: i8, rest: Seq<u8>)
    ensures
        parse_sint(sint_bytes(v as i64) + rest, 127) == Ok::<(int, int), Error>(
            (v as int, sint_bytes(v as i64).len() as int),
        ),
{
    lemma_sint_roundtrip(v as i64, 127, rest);
}

/// Round trip for `i16` values.
pub proof fn lemma_roundtrip_i16(v: i16, rest: Seq<u8>)
    ensures
        parse_sint(sint_bytes(v as i64) + rest, 32767) == Ok::<(int, int), Error>(
            (v as int, sint_bytes(v as i64).len() as int),
        ),
{
    lemma_sint_roundtrip(v as i64, 32767, rest);
}

/// Round trip for `i32` values other than `i32::MIN`, which cannot
/// be encoded.
pub proof fn lemma_roundtrip_i32(v: i32, rest: Seq<u8>)
    requires
        v != i32::MIN,
    ensures
        parse_sint(sint_bytes(v as i64) + rest, i32::MAX as int) == Ok::<(int, int), Error>(
            (v as int, sint_bytes(v as i64).len() as int),
        ),
{
    lemma_sint_roundtrip(v as i64, i32::MAX as int, rest);
}

/// Round trip for `i64` values other than `i64::MIN`, which cannot
/// be encoded.
pub proof fn lemma_roundtrip_i64(v: i64, rest: Seq<u8>)
    requires
        v != i64::MIN,
    ensures
        parse_sint(sint_bytes(v) + rest, i64::MAX as int) == Ok::<(int, int), Error>(
            (v as int, sint_bytes(v).len() as int),
        ),
{
    lemma_sint_roundtrip(v, i64::MAX as int, rest);
}

// --- Encoding minimality ------------------------------------------------

/// An unsigned integer takes the smallest applicable tag: two bytes
/// up to 255, the five-byte 32-bit form through the 27-bit range, and
/// beyond that a small-big whose magnitude has no trailing zero byte
/// and no shorter representation.
pub proof fn lemma_uint_encoding_minimal(v: u64)
    ensures
        v <= 255 ==> uint_bytes(v) == seq![ERL_SMALL_INTEGER_EXT, v as u8],
        255 < v <= I27_MAX as u64 ==> uint_bytes(v).len() == 5 && uint_bytes(v)[0]
            == ERL_INTEGER_EXT,
        v > I27_MAX as u64 ==> {
            let m = le_min_bytes(v);
            &&& uint_bytes(v)[0] == ERL_SMALL_BIG_EXT
            &&& uint_bytes(v)[1] == m.len() as u8
            &&& m.last() != 0
            &&& pow256((m.len() - 1) as nat) <= v < pow256(m.len())
        },
{
    if v > I27_MAX as u64 {
        lemma_le_min_tight(v);
        assert(uint_bytes(v)[0] == ERL_SMALL_BIG_EXT);
        assert(uint_bytes(v)[1] == le_min_bytes(v).len() as u8);
    }
}

/// The signed counterpart: the value 0 through 255 takes the
/// two-byte form, the 27-bit signed range the five-byte form, and
/// everything else a minimal small-big of its magnitude.
pub proof fn lemma_sint_encoding_minimal(v: i64)
    requires
        v != i64::MIN,
    ensures
        0 <= v <= 255 ==> sint_bytes(v) == seq![ERL_SMALL_INTEGER_EXT, v as u8],
        (I27_MIN as i64 <= v <= I27_MAX as i64 && !(0 <= v <= 255)) ==> sint_bytes(v).len() == 5
            && sint_bytes(v)[0] == ERL_INTEGER_EXT,
        !(I27_MIN as i64 <= v <= I27_MAX as i64) ==> {
            let mag: u64 = if v > 0 { v as u64 } else { (-v) as u64 };
            let m = le_min_bytes(mag);
            &&& sint_bytes(v)[0] == ERL_SMALL_BIG_EXT
            &&& sint_bytes(v)[1] == m.len() as u8
            &&& m.last() != 0
            &&& pow256((m.len() - 1) as nat) <= mag < pow256(m.len())
        },
{
    if !(I27_MIN as i64 <= v && v <= I27_MAX as i64) {
        let mag: u64 = if v > 0 {
            v as u64
        } else {
            (-v) as u64
        };
        lemma_le_min_tight(mag);
        assert(sint_bytes(v)[0] == ERL_SMALL_BIG_EXT);
        assert(sint_bytes(v)[1] == le_min_bytes(mag).len() as u8);
    }
}

// --- Atom variant preservation ------------------------------------------

/// Decoding a well-formed atom's encoding yields the same atom,
/// variant included, wherever the encoding stands in a stream.
pub proof fn lemma_atom_roundtrip(a: AtomV, rest: Seq<u8>)
    requires
        atom_wf(a),
    ensures
        atom_parse(atom_bytes(a) + rest) == Ok::<(AtomV, int), Error>(
            (a, atom_bytes(a).len() as int),
        ),
{
    reveal(atom_parse);
    let b = atom_bytes(a);
    let s = b + rest;
    match a {
        AtomV::Latin1(c) => {
            assert(s[0] == crate::consts::ERL_ATOM_EXT);
            assert(s[1] == be16(c.len() as u16)[0] && s[2] == be16(c.len() as u16)[1]);
            lemma_be16_inv(c.len() as u16);
            assert(u16_of(s[1], s[2]) == c.len());
            assert(s.subrange(3, 3 + c.len() as int) =~= c);
        }
        AtomV::UTF8(c) => {
            assert(s[0] == crate::consts::ERL_ATOM_UTF8_EXT);
            assert(s[1] == be16(c.len() as u16)[0] && s[2] == be16(c.len() as u16)[1]);
            lemma_be16_inv(c.len() as u16);
            assert(u16_of(s[1], s[2]) == c.len());
            assert(s.subrange(3, 3 + c.len() as int) =~= c);
        }
        AtomV::UTF8Small(c) => {
            assert(s[0] == crate::consts::ERL_SMALL_ATOM_UTF8_EXT);
            assert(s[1] == c.len() as u8);
            assert(s.subrange(2, 2 + c.len() as int) =~= c);
        }
    }
}

/// Whatever atom tag the decoder saw, re-encoding the atom yields
/// the same tag: the wire encoding survives a decode-encode cycle.
pub proof fn lemma_atom_tag_preserved(s: Seq<u8>)
    requires
        atom_parse(s) is Ok,
    ensures
        ({
            let a = atom_parse(s)->Ok_0.0;
            &&& atom_wf(a)
            &&& atom_len_ok(a)
            &&& atom_tag(a) == s[0]
            &&& atom_bytes(a)[0] == s[0]
        }),
{
    reveal(atom_parse);
    let a = atom_parse(s)->Ok_0.0;
    assert(atom_bytes(a)[0] == atom_tag(a));
}

// --- Floats -------------------------------------------------------------

/// Decoding an encoded float yields the same IEEE-754 bit pattern.
pub proof fn lemma_float_roundtrip(bits: u64, rest: Seq<u8>)
    ensures
        float_parse(float_bytes(bits) + rest) == Ok::<(u64, int), Error>((bits, 9)),
{
    reveal(float_parse);
    let b = be64(bits);
    let s = float_bytes(bits) + rest;
    assert(s[0] == crate::consts::NEW_FLOAT_EXT);
    assert(s[1] == b[0] && s[2] == b[1] && s[3] == b[2] && s[4] == b[3] && s[5] == b[4] && s[6]
        == b[5] && s[7] == b[6] && s[8] == b[7]);
    lemma_be64_inv(bits);
}

// --- Strings ------------------------------------------------------------

/// Decoding an encoded string yields the same bytes: the empty
/// string travels as `NIL_EXT` and comes back empty, and a non-empty
/// UTF-8 string comes back byte for byte.
pub proof fn lemma_str_roundtrip(c: Seq<u8>, rest: Seq<u8>)
    requires
        c.len() <= 65535,
        crate::utf8::is_utf8(c),
    ensures
        str_parse(str_bytes(c) + rest) == Ok::<(Seq<u8>, int), Error>(
            (c, str_bytes(c).len() as int),
        ),
{
    reveal(str_parse);
    let s = str_bytes(c) + rest;
    if c.len() == 0 {
        assert(s[0] == crate::consts::ERL_NIL_EXT);
        assert(c =~= Seq::<u8>::empty());
    } else {
        assert(s[0] == crate::consts::ERL_STRING_EXT);
        assert(s[1] == be16(c.len() as u16)[0] && s[2] == be16(c.len() as u16)[1]);
        lemma_be16_inv(c.len() as u16);
        assert(u16_of(s[1], s[2]) == c.len());
        assert(s.subrange(3, 3 + c.len() as int) =~= c);
    }
}

// --- Pid creation threshold ---------------------------------------------

/// The creation value alone chooses a pid's wire form: up to 3 the
/// legacy tag with masked fields, above 3 the new tag with full
/// 32-bit fields.
pub proof fn lemma_pid_creation_threshold(p: PidV)
    ensures
        p.creation <= 3 ==> pid_bytes(p) == seq![ERL_PID_EXT] + atom_bytes(p.node) + be32(
            (p.num % 0x8000) as u32,
        ) + be32((p.serial % 0x2000) as u32) + seq![(p.creation % 4) as u8],
        p.creation <= 3 ==> pid_bytes(p)[0] == ERL_PID_EXT,
        p.creation > 3 ==> pid_bytes(p) == seq![ERL_NEW_PID_EXT] + atom_bytes(p.node) + be32(
            p.num,
        ) + be32(p.serial) + be32(p.creation),
        p.creation > 3 ==> pid_bytes(p)[0] == ERL_NEW_PID_EXT,
{
}

/// Decoding a well-formed pid's encoding yields the same pid,
/// wherever the encoding stands in a stream.
pub proof fn lemma_pid_roundtrip(p: PidV, rest: Seq<u8>)
    requires
        pid_wf(p),
    ensures
        crate::de::pid_parse(pid_bytes(p) + rest) == Ok::<(PidV, int), Error>(
            (p, pid_bytes(p).len() as int),
        ),
{
    reveal(crate::de::pid_parse);
    let ab = atom_bytes(p.node);
    let s = pid_bytes(p) + rest;
    if p.creation <= 3 {
        let tail = be32((p.num % 0x8000) as u32) + be32((p.serial % 0x2000) as u32) + seq![
            (p.creation % 4) as u8,
        ];
        assert(s =~= seq![ERL_PID_EXT] + (ab + (tail + rest)));
        assert(s[0] == ERL_PID_EXT);
        assert(s.skip(1) =~= ab + (tail + rest));
        lemma_atom_roundtrip(p.node, tail + rest);
        let t = s.skip(1 + ab.len() as int);
        assert(t =~= tail + rest);
        let n32 = (p.num % 0x8000) as u32;
        let s32 = (p.serial % 0x2000) as u32;
        assert(t[0] == be32(n32)[0] && t[1] == be32(n32)[1] && t[2] == be32(n32)[2] && t[3]
            == be32(n32)[3]);
        assert(t[4] == be32(s32)[0] && t[5] == be32(s32)[1] && t[6] == be32(s32)[2] && t[7]
            == be32(s32)[3]);
        assert(t[8] == (p.creation % 4) as u8);
        lemma_be32_inv(n32);
        lemma_be32_inv(s32);
        assert(u32_of(t[0], t[1], t[2], t[3]) % 0x8000 == p.num);
        assert(u32_of(t[4], t[5], t[6], t[7]) % 0x2000 == p.serial);
        assert((t[8] % 4) as u32 == p.creation);
        assert(pid_bytes(p).len() == 1 + ab.len() + 9);
    } else {
        let tail = be32(p.num) + be32(p.serial) + be32(p.creation);
        assert(s =~= seq![ERL_NEW_PID_EXT] + (ab + (tail + rest)));
        assert(s[0] == ERL_NEW_PID_EXT);
        assert(s.skip(1) =~= ab + (tail + rest));
        lemma_atom_roundtrip(p.node, tail + rest);
        let t = s.skip(1 + ab.len() as int);
        assert(t =~= tail + rest);
        assert(t[0] == be32(p.num)[0] && t[1] == be32(p.num)[1] && t[2] == be32(p.num)[2] && t[3]
            == be32(p.num)[3]);
        assert(t[4] == be32(p.serial)[0] && t[5] == be32(p.serial)[1] && t[6] == be32(
            p.serial,
        )[2] && t[7] == be32(p.serial)[3]);
        assert(t[8] == be32(p.creation)[0] && t[9] == be32(p.creation)[1] && t[10] == be32(
            p.creation,
        )[2] && t[11] == be32(p.creation)[3]);
        lemma_be32_inv(p.num);
        lemma_be32_inv(p.serial);
        lemma_be32_inv(p.creation);
        assert(pid_bytes(p).len() == 1 + ab.len() + 12);
    }
}

// --- Fail-closed and session laws ---------------------------------------

/// A small-big whose magnitude claims more than eight bytes never
/// decodes: the number parse rejects it outright.
pub proof fn lemma_oversize_magnitude_rejected(s: Seq<u8>)
    requires
        s.len() >= 2,
        s[0] == ERL_SMALL_BIG_EXT,
        s[1] > 8,
    ensures
        num_parse(s) == Err::<(Number, int), Error>(
            Error::Io(crate::error::IoKind::InvalidData),
        ),
{
    assert(s.skip(1)[0] == s[1]);
}

/// The handshake accepts a challenge reply exactly when it is 21
/// bytes led by `'r'` and carries the MD5 of the cookie and this
/// node's challenge.
pub proof fn lemma_handshake_digest_required(f: Seq<u8>, cookie: Seq<u8>, our_challenge: u32)
    ensures
        crate::connect::challenge_reply_spec(f, cookie, our_challenge) is Ok <==> f.len() == 21
            && f[0] == 0x72 && f.subrange(5, 21) == crate::md5::md5_of(
            crate::connect::digest_input(cookie, our_challenge),
        ),
{
}

/// Every accepted post-handshake frame opens with the pass-through
/// byte and the version magic; any other pair fails the session.
pub proof fn lemma_session_envelope_required(size: u32, f: Seq<u8>)
    requires
        size > 0,
        f.len() >= 2,
        f[0] != crate::consts::ERL_PASS_THROUGH || f[1] != crate::consts::ERL_VERSION_MAGIC,
    ensures
        crate::handle::session_input_spec(size, f) == Err::<crate::handle::LoopActionV, Error>(
            Error::Io(crate::error::IoKind::InvalidData),
        ),
{
}

/// A zero-length frame is a keep-alive tick, whatever bytes follow:
/// no state change and no handler call.
pub proof fn lemma_tick_accepted(f: Seq<u8>)
    ensures
        crate::handle::session_input_spec(0, f) == Ok::<crate::handle::LoopActionV, Error>(
            crate::handle::LoopActionV::Tick,
        ),
{
}

/// Decoding a well-formed port's encoding yields the same port,
/// wherever the encoding stands in a stream.
pub proof fn lemma_port_roundtrip(p: PortV, rest: Seq<u8>)
    requires
        port_wf(p),
    ensures
        crate::de::port_parse(port_bytes(p) + rest) == Ok::<(PortV, int), Error>(
            (p, port_bytes(p).len() as int),
        ),
{
    reveal(crate::de::port_parse);
    let ab = atom_bytes(port_node(p));
    let s = port_bytes(p) + rest;
    match p {
        PortV::NewPort { node, id, creation } => {
            let tail = be32(id) + be32(creation);
            assert(s =~= seq![crate::consts::ERL_NEW_PORT_EXT] + (ab + (tail + rest)));
            assert(s[0] == crate::consts::ERL_NEW_PORT_EXT);
            assert(s.skip(1) =~= ab + (tail + rest));
            lemma_atom_roundtrip(node, tail + rest);
            let t = s.skip(1 + ab.len() as int);
            assert(t =~= tail + rest);
            assert(t[0] == be32(id)[0] && t[1] == be32(id)[1] && t[2] == be32(id)[2] && t[3]
                == be32(id)[3]);
            assert(t[4] == be32(creation)[0] && t[5] == be32(creation)[1] && t[6] == be32(
                creation,
            )[2] && t[7] == be32(creation)[3]);
            lemma_be32_inv(id);
            lemma_be32_inv(creation);
            assert(port_bytes(p).len() == 1 + ab.len() + 8);
        }
        PortV::V4Port { node, id, creation } => {
            let tail = be64(id) + be32(creation);
            assert(s =~= seq![crate::consts::ERL_V4_PORT_EXT] + (ab + (tail + rest)));
            assert(s[0] == crate::consts::ERL_V4_PORT_EXT);
            assert(s.skip(1) =~= ab + (tail + rest));
            lemma_atom_roundtrip(node, tail + rest);
            let t = s.skip(1 + ab.len() as int);
            assert(t =~= tail + rest);
            assert(t[0] == be64(id)[0] && t[1] == be64(id)[1] && t[2] == be64(id)[2] && t[3]
                == be64(id)[3] && t[4] == be64(id)[4] && t[5] == be64(id)[5] && t[6] == be64(
                id,
            )[6] && t[7] == be64(id)[7]);
            assert(t[8] == be32(creation)[0] && t[9] == be32(creation)[1] && t[10] == be32(
                creation,
            )[2] && t[11] == be32(creation)[3]);
            lemma_be64_inv(id);
            lemma_be32_inv(creation);
            assert(port_bytes(p).len() == 1 + ab.len() + 12);
        }
    }
}

/// The concatenated big-endian words read back as the words they
/// were written from.
pub proof fn lemma_words_roundtrip(ws: Seq<u32>, rest: Seq<u8>)
    ensures
        words_bytes(ws).len() == 4 * ws.len(),
        crate::de::take_words(words_bytes(ws) + rest, ws.len()) == ws,
    decreases ws.len(),
{
    if ws.len() == 0 {
        assert(crate::de::take_words(words_bytes(ws) + rest, 0) =~= ws);
    } else {
        lemma_words_roundtrip(ws.skip(1), rest);
        let s = words_bytes(ws) + rest;
        assert(s =~= be32(ws[0]) + (words_bytes(ws.skip(1)) + rest));
        assert(s[0] == be32(ws[0])[0] && s[1] == be32(ws[0])[1] && s[2] == be32(ws[0])[2] && s[3]
            == be32(ws[0])[3]);
        lemma_be32_inv(ws[0]);
        assert(s.skip(4) =~= words_bytes(ws.skip(1)) + rest);
        assert(crate::de::take_words(s, ws.len()) == seq![
            u32_of(s[0], s[1], s[2], s[3]) as u32,
        ] + crate::de::take_words(s.skip(4), (ws.len() - 1) as nat));
        assert(crate::de::take_words(s, ws.len()) =~= ws);
    }
}

/// Decoding a well-formed reference's encoding yields the same
/// reference, wherever the encoding stands in a stream.
#[verifier::rlimit(100)]
#[verifier::spinoff_prover]
pub proof fn lemma_ref_roundtrip(r: RefV, rest: Seq<u8>)
    requires
        ref_wf(r),
    ensures
        crate::de::ref_parse(ref_bytes(r) + rest) == Ok::<(RefV, int), Error>(
            (r, ref_bytes(r).len() as int),
        ),
{
    reveal(crate::de::ref_parse);
    let ab = atom_bytes(r.node);
    let ws = ref_words(r);
    let wb = words_bytes(ws);
    let s = ref_bytes(r) + rest;
    lemma_words_roundtrip(ws, rest);
    if r.creation <= 3 {
        let tail = seq![(r.creation % 4) as u8] + wb;
        assert(s =~= seq![crate::consts::ERL_NEW_REFERENCE_EXT] + be16(r.len as u16) + (ab + (
        tail + rest)));
        assert(s[0] == crate::consts::ERL_NEW_REFERENCE_EXT);
        assert(s[1] == be16(r.len as u16)[0] && s[2] == be16(r.len as u16)[1]);
        lemma_be16_inv(r.len as u16);
        assert(crate::io::sign16(u16_of(s[1], s[2])) == r.len);
        assert(s.skip(3) =~= ab + (tail + rest));
        lemma_atom_roundtrip(r.node, tail + rest);
        let t = s.skip(3 + ab.len() as int);
        assert(t =~= tail + rest);
        assert(t[0] == (r.creation % 4) as u8);
        assert(((r.creation % 4) as u8 % 4) as u32 == r.creation);
        assert(t.skip(1) =~= wb + rest);
        assert(crate::de::take_words(t.skip(1), r.len as nat) == ws);
        assert(ref_bytes(r).len() == 3 + ab.len() + 1 + 4 * r.len);
    } else {
        let tail = be32(r.creation) + wb;
        assert(s =~= seq![crate::consts::ERL_NEWER_REFERENCE_EXT] + be16(r.len as u16) + (ab + (
        tail + rest)));
        assert(s[0] == crate::consts::ERL_NEWER_REFERENCE_EXT);
        assert(s[1] == be16(r.len as u16)[0] && s[2] == be16(r.len as u16)[1]);
        lemma_be16_inv(r.len as u16);
        assert(crate::io::sign16(u16_of(s[1], s[2])) == r.len);
        assert(s.skip(3) =~= ab + (tail + rest));
        lemma_atom_roundtrip(r.node, tail + rest);
        let t = s.skip(3 + ab.len() as int);
        assert(t =~= tail + rest);
        assert(t[0] == be32(r.creation)[0] && t[1] == be32(r.creation)[1] && t[2] == be32(
            r.creation,
        )[2] && t[3] == be32(r.creation)[3]);
        lemma_be32_inv(r.creation);
        assert(t.skip(4) =~= wb + rest);
        assert(crate::de::take_words(t.skip(4), r.len as nat) == ws);
        assert(ref_bytes(r).len() == 3 + ab.len() + 4 + 4 * r.len);
    }
}

/// The signed-integer encoding fits any 64-bit target: shorthand for
/// the trace fields.
proof fn lemma_sint64_at(v: i64, rest: Seq<u8>)
    requires
        v != i64::MIN,
    ensures
        parse_sint(sint_bytes(v) + rest, i64::MAX as int) == Ok::<(int, int), Error>(
            (v as int, sint_bytes(v).len() as int),
        ),
{
    lemma_sint_roundtrip(v, i64::MAX as int, rest);
}

/// Decoding a well-formed trace token's five fields yields the same
/// token.
#[verifier::rlimit(100)]
#[verifier::spinoff_prover]
pub proof fn lemma_trace_fields_roundtrip(t: TraceV, rest: Seq<u8>)
    requires
        trace_wf(t),
    ensures
        ({
            let f = sint_bytes(t.0) + sint_bytes(t.1) + sint_bytes(t.2) + pid_bytes(t.3)
                + sint_bytes(t.4);
            crate::de::trace_fields_parse(f + rest) == Ok::<(TraceV, int), Error>(
                (t, f.len() as int),
            )
        }),
{
    reveal(crate::de::trace_fields_parse);
    let b0 = sint_bytes(t.0);
    let b1 = sint_bytes(t.1);
    let b2 = sint_bytes(t.2);
    let b3 = pid_bytes(t.3);
    let b4 = sint_bytes(t.4);
    let f = b0 + b1 + b2 + b3 + b4;
    let s = f + rest;
    let r1 = b1 + (b2 + (b3 + (b4 + rest)));
    let r2 = b2 + (b3 + (b4 + rest));
    let r3 = b3 + (b4 + rest);
    let r4 = b4 + rest;
    assert(s =~= b0 + r1);
    lemma_sint64_at(t.0, r1);
    assert(s.skip(b0.len() as int) =~= r1);
    lemma_sint64_at(t.1, r2);
    assert(r1.skip(b1.len() as int) =~= r2);
    assert(s.skip(b0.len() + b1.len() as int) =~= r2);
    lemma_sint64_at(t.2, r3);
    assert(s.skip(b0.len() + b1.len() as int + b2.len()) =~= r3);
    lemma_pid_roundtrip(t.3, b4 + rest);
    assert(s.skip(b0.len() + b1.len() as int + b2.len() + b3.len()) =~= r4);
    lemma_sint64_at(t.4, rest);
    assert(f.len() == b0.len() + b1.len() + b2.len() + b3.len() + b4.len());
}

/// Decoding a well-formed trace token's encoding yields the same
/// token, wherever the encoding stands in a stream.
pub proof fn lemma_trace_roundtrip(t: TraceV, rest: Seq<u8>)
    requires
        trace_wf(t),
    ensures
        crate::de::trace_parse(trace_bytes(t) + rest) == Ok::<(TraceV, int), Error>(
            (t, trace_bytes(t).len() as int),
        ),
{
    reveal(crate::de::trace_parse);
    let f = sint_bytes(t.0) + sint_bytes(t.1) + sint_bytes(t.2) + pid_bytes(t.3) + sint_bytes(
        t.4,
    );
    let s = trace_bytes(t) + rest;
    assert(s =~= seq![crate::consts::ERL_SMALL_TUPLE_EXT, 5u8] + (f + rest));
    assert(s[0] == crate::consts::ERL_SMALL_TUPLE_EXT);
    assert(s[1] == 5);
    assert(crate::de::tuple_parse(s) == Ok::<(int, int), Error>((5, 2)));
    assert(s.skip(2) =~= f + rest);
    lemma_trace_fields_roundtrip(t, rest);
    assert(trace_bytes(t).len() == 2 + f.len());
}

#[verifier::rlimit(100)]
#[verifier::spinoff_prover]
proof fn lemma_msg_roundtrip_send(m: MsgV, rest: Seq<u8>)
    requires
        msg_wf(m),
        m is Send,
    ensures
        crate::de::msg_parse(msg_bytes(m) + rest) == Ok::<(MsgV, int), Error>(
            (m, msg_bytes(m).len() as int),
        ),
{
    reveal(crate::de::msg_parse);
    let hd = seq![
        crate::consts::ERL_SMALL_TUPLE_EXT,
        msg_arity(m),
        ERL_SMALL_INTEGER_EXT,
        msg_op(m),
    ];
    let s = msg_bytes(m) + rest;
    if let MsgV::Send { cookie, to } = m {
        reveal(crate::de::send_fields_parse);
        let b1 = atom_bytes(cookie);
        let b2 = pid_bytes(to);
        let f = b1 + b2;
        assert(s =~= hd + (f + rest));
        assert(s[0] == hd[0] && s[1] == hd[1] && s[2] == hd[2] && s[3] == hd[3]);
        let fs = s.skip(4);
        assert(fs =~= f + rest);
        assert(fs =~= b1 + (b2 + rest));
        lemma_atom_roundtrip(cookie, b2 + rest);
        assert(fs.skip(b1.len() as int) =~= b2 + rest);
        lemma_pid_roundtrip(to, rest);
        assert(msg_bytes(m).len() == 4 + b1.len() + b2.len());
    }
}

#[verifier::rlimit(100)]
#[verifier::spinoff_prover]
proof fn lemma_msg_roundtrip_sendtt(m: MsgV, rest: Seq<u8>)
    requires
        msg_wf(m),
        m is SendTT,
    ensures
        crate::de::msg_parse(msg_bytes(m) + rest) == Ok::<(MsgV, int), Error>(
            (m, msg_bytes(m).len() as int),
        ),
{
    reveal(crate::de::msg_parse);
    let hd = seq![
        crate::consts::ERL_SMALL_TUPLE_EXT,
        msg_arity(m),
        ERL_SMALL_INTEGER_EXT,
        msg_op(m),
    ];
    let s = msg_bytes(m) + rest;
    if let MsgV::SendTT { cookie, to, token } = m {
        reveal(crate::de::send_tt_fields_parse);
        let b1 = atom_bytes(cookie);
        let b2 = pid_bytes(to);
        let b3 = trace_bytes(token);
        let f = b1 + b2 + b3;
        assert(s =~= hd + (f + rest));
        assert(s[0] == hd[0] && s[1] == hd[1] && s[2] == hd[2] && s[3] == hd[3]);
        let fs = s.skip(4);
        assert(fs =~= f + rest);
        assert(fs =~= b1 + (b2 + (b3 + rest)));
        lemma_atom_roundtrip(cookie, b2 + (b3 + rest));
        assert(fs.skip(b1.len() as int) =~= b2 + (b3 + rest));
        lemma_pid_roundtrip(to, b3 + rest);
        assert(fs.skip(b1.len() + b2.len() as int) =~= b3 + rest);
        lemma_trace_roundtrip(token, rest);
        assert(msg_bytes(m).len() == 4 + b1.len() + b2.len() + b3.len());
    }
}

#[verifier::rlimit(100)]
#[verifier::spinoff_prover]
proof fn lemma_msg_roundtrip_regsend(m: MsgV, rest: Seq<u8>)
    requires
        msg_wf(m),
        m is RegSend,
    ensures
        crate::de::msg_parse(msg_bytes(m) + rest) == Ok::<(MsgV, int), Error>(
            (m, msg_bytes(m).len() as int),
        ),
{
    reveal(crate::de::msg_parse);
    let hd = seq![
        crate::consts::ERL_SMALL_TUPLE_EXT,
        msg_arity(m),
        ERL_SMALL_INTEGER_EXT,
        msg_op(m),
    ];
    let s = msg_bytes(m) + rest;
    if let MsgV::RegSend { from, cookie, toname } = m {
        reveal(crate::de::reg_send_fields_parse);
        let b1 = pid_bytes(from);
        let b2 = atom_bytes(cookie);
        let b3 = atom_bytes(toname);
        let f = b1 + b2 + b3;
        assert(s =~= hd + (f + rest));
        assert(s[0] == hd[0] && s[1] == hd[1] && s[2] == hd[2] && s[3] == hd[3]);
        let fs = s.skip(4);
        assert(fs =~= f + rest);
        assert(fs =~= b1 + (b2 + (b3 + rest)));
        lemma_pid_roundtrip(from, b2 + (b3 + rest));
        assert(fs.skip(b1.len() as int) =~= b2 + (b3 + rest));
        lemma_atom_roundtrip(cookie, b3 + rest);
        assert(fs.skip(b1.len() + b2.len() as int) =~= b3 + rest);
        lemma_atom_roundtrip(toname, rest);
        assert(msg_bytes(m).len() == 4 + b1.len() + b2.len() + b3.len());
    }
}

#[verifier::rlimit(100)]
#[verifier::spinoff_prover]
proof fn lemma_msg_roundtrip_regsendtt(m: MsgV, rest: Seq<u8>)
    requires
        msg_wf(m),
        m is RegSendTT,
    ensures
        crate::de::msg_parse(msg_bytes(m) + rest) == Ok::<(MsgV, int), Error>(
            (m, msg_bytes(m).len() as int),
        ),
{
    reveal(crate::de::msg_parse);
    let hd = seq![
        crate::consts::ERL_SMALL_TUPLE_EXT,
        msg_arity(m),
        ERL_SMALL_INTEGER_EXT,
        msg_op(m),
    ];
    let s = msg_bytes(m) + rest;
    if let MsgV::RegSendTT { from, cookie, toname, token } = m {
        reveal(crate::de::reg_send_tt_fields_parse);
        let b1 = pid_bytes(from);
        let b2 = atom_bytes(cookie);
        let b3 = atom_bytes(toname);
        let b4 = trace_bytes(token);
        let f = b1 + b2 + b3 + b4;
        assert(s =~= hd + (f + rest));
        assert(s[0] == hd[0] && s[1] == hd[1] && s[2] == hd[2] && s[3] == hd[3]);
        let fs = s.skip(4);
        assert(fs =~= f + rest);
        assert(fs =~= b1 + (b2 + (b3 + (b4 + rest))));
        lemma_pid_roundtrip(from, b2 + (b3 + (b4 + rest)));
        assert(fs.skip(b1.len() as int) =~= b2 + (b3 + (b4 + rest)));
        lemma_atom_roundtrip(cookie, b3 + (b4 + rest));
        assert(fs.skip(b1.len() + b2.len() as int) =~= b3 + (b4 + rest));
        lemma_atom_roundtrip(toname, b4 + rest);
        assert(fs.skip(b1.len() + b2.len() as int + b3.len()) =~= b4 + rest);
        lemma_trace_roundtrip(token, rest);
        assert(msg_bytes(m).len() == 4 + b1.len() + b2.len() + b3.len() + b4.len());
    }
}

#[verifier::rlimit(100)]
#[verifier::spinoff_prover]
proof fn lemma_msg_roundtrip_exit(m: MsgV, rest: Seq<u8>)
    requires
        msg_wf(m),
        m is Exit,
    ensures
        crate::de::msg_parse(msg_bytes(m) + rest) == Ok::<(MsgV, int), Error>(
            (m, msg_bytes(m).len() as int),
        ),
{
    reveal(crate::de::msg_parse);
    let hd = seq![
        crate::consts::ERL_SMALL_TUPLE_EXT,
        msg_arity(m),
        ERL_SMALL_INTEGER_EXT,
        msg_op(m),
    ];
    let s = msg_bytes(m) + rest;
    if let MsgV::Exit { from, to, reason } = m {
        reveal(crate::de::exit_fields_parse);
        let b1 = pid_bytes(from);
        let b2 = pid_bytes(to);
        let b3 = str_bytes(reason);
        let f = b1 + b2 + b3;
        assert(s =~= hd + (f + rest));
        assert(s[0] == hd[0] && s[1] == hd[1] && s[2] == hd[2] && s[3] == hd[3]);
        let fs = s.skip(4);
        assert(fs =~= f + rest);
        assert(fs =~= b1 + (b2 + (b3 + rest)));
        lemma_pid_roundtrip(from, b2 + (b3 + rest));
        assert(fs.skip(b1.len() as int) =~= b2 + (b3 + rest));
        lemma_pid_roundtrip(to, b3 + rest);
        assert(fs.skip(b1.len() + b2.len() as int) =~= b3 + rest);
        lemma_str_roundtrip(reason, rest);
        assert(msg_bytes(m).len() == 4 + b1.len() + b2.len() + b3.len());
    }
}

#[verifier::rlimit(100)]
#[verifier::spinoff_prover]
proof fn lemma_msg_roundtrip_exittt(m: MsgV, rest: Seq<u8>)
    requires
        msg_wf(m),
        m is ExitTT,
    ensures
        crate::de::msg_parse(msg_bytes(m) + rest) == Ok::<(MsgV, int), Error>(
            (m, msg_bytes(m).len() as int),
        ),
{
    reveal(crate::de::msg_parse);
    let hd = seq![
        crate::consts::ERL_SMALL_TUPLE_EXT,
        msg_arity(m),
        ERL_SMALL_INTEGER_EXT,
        msg_op(m),
    ];
    let s = msg_bytes(m) + rest;
    if let MsgV::ExitTT { from, to, token, reason } = m {
        reveal(crate::de::exit_tt_fields_parse);
        let b1 = pid_bytes(from);
        let b2 = pid_bytes(to);
        let b3 = trace_bytes(token);
        let b4 = str_bytes(reason);
        let f = b1 + b2 + b3 + b4;
        assert(s =~= hd + (f + rest));
        assert(s[0] == hd[0] && s[1] == hd[1] && s[2] == hd[2] && s[3] == hd[3]);
        let fs = s.skip(4);
        assert(fs =~= f + rest);
        assert(fs =~= b1 + (b2 + (b3 + (b4 + rest))));
        lemma_pid_roundtrip(from, b2 + (b3 + (b4 + rest)));
        assert(fs.skip(b1.len() as int) =~= b2 + (b3 + (b4 + rest)));
        lemma_pid_roundtrip(to, b3 + (b4 + rest));
        assert(fs.skip(b1.len() + b2.len() as int) =~= b3 + (b4 + rest));
        lemma_trace_roundtrip(token, b4 + rest);
        assert(fs.skip(b1.len() + b2.len() as int + b3.len()) =~= b4 + rest);
        lemma_str_roundtrip(reason, rest);
        assert(msg_bytes(m).len() == 4 + b1.len() + b2.len() + b3.len() + b4.len());
    }
}

/// Decoding a well-formed control message's encoding yields the same
/// message, wherever the encoding stands in a stream: the six
/// control messages round-trip byte-exactly.
pub proof fn lemma_msg_roundtrip(m: MsgV, rest: Seq<u8>)
    requires
        msg_wf(m),
    ensures
        crate::de::msg_parse(msg_bytes(m) + rest) == Ok::<(MsgV, int), Error>(
            (m, msg_bytes(m).len() as int),
        ),
{
    match m {
        MsgV::Send { .. } => lemma_msg_roundtrip_send(m, rest),
        MsgV::SendTT { .. } => lemma_msg_roundtrip_sendtt(m, rest),
        MsgV::RegSend { .. } => lemma_msg_roundtrip_regsend(m, rest),
        MsgV::RegSendTT { .. } => lemma_msg_roundtrip_regsendtt(m, rest),
        MsgV::Exit { .. } => lemma_msg_roundtrip_exit(m, rest),
        MsgV::ExitTT { .. } => lemma_msg_roundtrip_exittt(m, rest),
    }
}

/// Decoding an encoded boolean yields the value back: the atom names
/// `true` and `false` are themselves well-formed atoms.
pub proof fn lemma_bool_roundtrip(v: bool, rest: Seq<u8>)
    ensures
        crate::de::bool_parse(crate::term::bool_bytes(v) + rest) == Ok::<(bool, int), Error>(
            (v, crate::term::bool_bytes(v).len() as int),
        ),
{
    reveal(crate::de::bool_parse);
    let name: Seq<u8> = if v {
        seq![0x74u8, 0x72u8, 0x75u8, 0x65u8]
    } else {
        seq![0x66u8, 0x61u8, 0x6cu8, 0x73u8, 0x65u8]
    };
    let a = AtomV::UTF8Small(name);
    assert(crate::utf8::is_utf8(name.skip(name.len() as int)));
    assert(crate::utf8::is_utf8(name)) by {
        reveal_with_fuel(crate::utf8::is_utf8, 8);
        if v {
            assert(name.skip(1) =~= seq![0x72u8, 0x75u8, 0x65u8]);
            assert(name.skip(1).skip(1) =~= seq![0x75u8, 0x65u8]);
            assert(name.skip(1).skip(1).skip(1) =~= seq![0x65u8]);
            assert(name.skip(1).skip(1).skip(1).skip(1) =~= Seq::<u8>::empty());
        } else {
            assert(name.skip(1) =~= seq![0x61u8, 0x6cu8, 0x73u8, 0x65u8]);
            assert(name.skip(1).skip(1) =~= seq![0x6cu8, 0x73u8, 0x65u8]);
            assert(name.skip(1).skip(1).skip(1) =~= seq![0x73u8, 0x65u8]);
            assert(name.skip(1).skip(1).skip(1).skip(1) =~= seq![0x65u8]);
            assert(name.skip(1).skip(1).skip(1).skip(1).skip(1) =~= Seq::<u8>::empty());
        }
    }
    assert(crate::term::bool_bytes(v) =~= atom_bytes(a));
    lemma_atom_roundtrip(a, rest);
    assert(crate::term::atom_data(a) == crate::de::true_name() <==> v) by {
        if !v {
            assert(name.len() != crate::de::true_name().len());
        }
    }
}

/// Decoding an encoded unit (the empty list) consumes its one byte.
pub proof fn lemma_unit_roundtrip(rest: Seq<u8>)
    ensures
        crate::de::unit_parse(seq![crate::consts::ERL_NIL_EXT] + rest) == Ok::<int, Error>(1),
{
    let s = seq![crate::consts::ERL_NIL_EXT] + rest;
    assert(s[0] == crate::consts::ERL_NIL_EXT);
}

/// Decoding an encoded binary yields the same bytes.
pub proof fn lemma_binary_roundtrip(c: Seq<u8>, rest: Seq<u8>)
    requires
        c.len() <= u32::MAX,
    ensures
        crate::de::binary_parse(crate::term::binary_bytes(c) + rest) == Ok::<
            (Seq<u8>, int),
            Error,
        >((c, crate::term::binary_bytes(c).len() as int)),
{
    reveal(crate::de::binary_parse);
    let s = crate::term::binary_bytes(c) + rest;
    let n = c.len() as u32;
    assert(s[0] == crate::consts::ERL_BINARY_EXT);
    assert(s[1] == be32(n)[0] && s[2] == be32(n)[1] && s[3] == be32(n)[2] && s[4] == be32(n)[3]);
    lemma_be32_inv(n);
    assert(s.subrange(5, 5 + c.len() as int) =~= c);
}

/// A tuple header reads back as the arity it was written for.
pub proof fn lemma_tuple_header_roundtrip(arity: usize, rest: Seq<u8>)
    requires
        arity <= u32::MAX,
    ensures
        crate::de::tuple_parse(crate::term::tuple_header_bytes(arity) + rest) == Ok::<
            (int, int),
            Error,
        >(
            (
                arity as int,
                if arity <= 255 {
                    2int
                } else {
                    5int
                },
            ),
        ),
{
    let s = crate::term::tuple_header_bytes(arity) + rest;
    if arity <= 255 {
        assert(s[0] == crate::consts::ERL_SMALL_TUPLE_EXT);
        assert(s[1] == arity as u8);
    } else {
        let w = arity as u32;
        assert(s[0] == crate::consts::ERL_LARGE_TUPLE_EXT);
        assert(s[1] == be32(w)[0] && s[2] == be32(w)[1] && s[3] == be32(w)[2] && s[4] == be32(
            w,
        )[3]);
        lemma_be32_inv(w);
    }
}

/// A non-empty list header reads back as the length it was written
/// for; the empty list is `NIL_EXT` alone.
pub proof fn lemma_list_header_roundtrip(n: u32, rest: Seq<u8>)
    ensures
        crate::de::list_parse(crate::term::list_header_bytes(n) + rest) == Ok::<
            (Option<u32>, int),
            Error,
        >((Some(n), 5)),
        crate::de::list_parse(seq![crate::consts::ERL_NIL_EXT] + rest) == Ok::<
            (Option<u32>, int),
            Error,
        >((None, 1)),
{
    let s = crate::term::list_header_bytes(n) + rest;
    assert(s[0] == crate::consts::ERL_LIST_EXT);
    assert(s[1] == be32(n)[0] && s[2] == be32(n)[1] && s[3] == be32(n)[2] && s[4] == be32(n)[3]);
    lemma_be32_inv(n);
    let e = seq![crate::consts::ERL_NIL_EXT] + rest;
    assert(e[0] == crate::consts::ERL_NIL_EXT);
}

/// A map header reads back as the pair count it was written for.
pub proof fn lemma_map_header_roundtrip(n: u32, rest: Seq<u8>)
    ensures
        crate::de::map_parse(crate::term::map_header_bytes(n) + rest) == Ok::<(u32, int), Error>(
            (n, 5),
        ),
{
    let s = crate::term::map_header_bytes(n) + rest;
    assert(s[0] == crate::consts::ERL_MAP_EXT);
    assert(s[1] == be32(n)[0] && s[2] == be32(n)[1] && s[3] == be32(n)[2] && s[4] == be32(n)[3]);
    lemma_be32_inv(n);
}

} // verus!

