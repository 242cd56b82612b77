//! The ETF encoder.
//!
//! A `Serializer` appends the exact bytes given by the `*_bytes`
//! specification functions of `term` to a `Writer`. Integers take the
//! smallest applicable tag; `i32::MIN` and `i64::MIN` cannot be
//! represented (their magnitude overflows the small-big form) and are
//! rejected; atoms beyond their length bound are rejected with
//! `Range`.

use vstd::prelude::*;

use crate::consts::{
    ERL_INTEGER_EXT, ERL_LIST_EXT, ERL_MAP_EXT, ERL_NEWER_REFERENCE_EXT, ERL_NEW_PID_EXT,
    ERL_NEW_PORT_EXT, ERL_NEW_REFERENCE_EXT, ERL_NIL_EXT, ERL_PID_EXT, ERL_SMALL_BIG_EXT,
    ERL_SMALL_INTEGER_EXT, ERL_STRING_EXT, ERL_V4_PORT_EXT, ERL_BINARY_EXT, I27_MAX, I27_MIN,
    NEW_FLOAT_EXT, MAXATOMLEN, MAXATOMLEN_UTF8, ERL_ATOM_EXT, ERL_ATOM_UTF8_EXT,
    ERL_SMALL_ATOM_UTF8_EXT, ERL_SMALL_TUPLE_EXT, ERL_LARGE_TUPLE_EXT,
};
use crate::error::{Error, IoKind};
use crate::io::Writer;
use crate::term::{
    atom_bytes, lemma_le_min_bytes_len8, atom_len_ok, binary_bytes, bool_bytes, float_bytes, le_min_bytes,
    list_header_bytes, map_header_bytes, msg_arity, msg_bytes, msg_enc_ok, msg_op, pid_bytes,
    pid_enc_ok, port_bytes, port_enc_ok, ref_bytes, ref_enc_ok, ref_words, sint_bytes,
    small_big_bytes, str_bytes, trace_bytes, trace_enc_ok, tuple_header_bytes, uint_bytes,
    words_bytes, Atom, Msg, Pid, Port, Ref, Trace,
};

verus! {

// --- Validity checks ----------------------------------------------------

/// Check that an atom is within its encoding's length bound.
pub fn atom_ok(a: &Atom) -> (r: bool)
    ensures
        r == atom_len_ok(a@),
{
    match a {
        Atom::Latin1(s) => s.len() < MAXATOMLEN,
        Atom::UTF8Small(s) => s.len() < 256,
        Atom::UTF8(s) => s.len() < MAXATOMLEN_UTF8,
    }
}

/// Check that a pid can be encoded.
pub fn pid_ok(p: &Pid) -> (r: bool)
    ensures
        r == pid_enc_ok(p@),
{
    atom_ok(&p.node)
}

/// Check that a port can be encoded.
pub fn port_ok(p: &Port) -> (r: bool)
    ensures
        r == port_enc_ok(p@),
{
    match p {
        Port::NewPort { node, .. } => atom_ok(node),
        Port::V4Port { node, .. } => atom_ok(node),
    }
}

/// Check that a reference can be encoded.
pub fn ref_ok(r: &Ref) -> (res: bool)
    ensures
        res == ref_enc_ok(r@),
{
    if !(0 <= r.len && r.len <= 5) {
        return false;
    }
    if !atom_ok(&r.node) {
        return false;
    }
    if r.creation <= 3 && r.len > 3 {
        return false;
    }
    match &r.n {
        None => r.len == 0,
        Some(ws) => r.len > 0 && ws.len() == r.len as usize,
    }
}

/// Check that a trace token can be encoded.
pub fn trace_ok(t: &Trace) -> (r: bool)
    ensures
        r == trace_enc_ok(t@),
{
    t.0 != i64::MIN && t.1 != i64::MIN && t.2 != i64::MIN && t.4 != i64::MIN && pid_ok(&t.3)
}

/// Check that a control message can be encoded.
pub fn msg_ok(m: &Msg) -> (r: bool)
    ensures
        r == msg_enc_ok(m@),
{
    match m {
        Msg::Send { cookie, to } => atom_ok(cookie) && pid_ok(to),
        Msg::SendTT { cookie, to, token } => atom_ok(cookie) && pid_ok(to) && trace_ok(token),
        Msg::RegSend { from, cookie, toname } => pid_ok(from) && atom_ok(cookie)
            && atom_ok(toname),
        Msg::RegSendTT { from, cookie, toname, token } => pid_ok(from) && atom_ok(cookie)
            && atom_ok(toname) && trace_ok(token),
        Msg::Exit { from, to, reason } => pid_ok(from) && pid_ok(to) && reason.len() <= 65535,
        Msg::ExitTT { from, to, token, reason } => pid_ok(from) && pid_ok(to) && trace_ok(token)
            && reason.len() <= 65535,
    }
}

// --- Serializer ---------------------------------------------------------

/// The ETF encoder: appends term encodings to a `Writer`.
pub struct Serializer {
    w: Writer,
}

impl View for Serializer {
    type V = Seq<u8>;

    closed spec fn view(&self) -> Seq<u8> {
        self.w@
    }
}

impl Serializer {
    pub fn new(w: Writer) -> (r: Serializer)
        ensures
            r@ == w@,
    {
        Serializer { w }
    }

    /// Hand out the bytes written so far.
    pub fn into_vec(self) -> (r: Vec<u8>)
        ensures
            r@ == self@,
    {
        self.w.into_vec()
    }

    /// Emit a `SMALL_INTEGER_EXT`.
    pub fn write_u8(&mut self, v: u8) -> (r: Result<(), Error>)
        ensures
            r is Ok,
            final(self)@ == old(self)@ + seq![ERL_SMALL_INTEGER_EXT, v],
    {
        self.w.write_u8(ERL_SMALL_INTEGER_EXT)?;
        self.w.write_u8(v)?;
        proof {
            assert(final(self)@ =~= old(self)@ + seq![ERL_SMALL_INTEGER_EXT, v]);
        }
        Ok(())
    }

    /// Emit an `INTEGER_EXT`: four big-endian two's-complement bytes.
    pub fn write_i27(&mut self, v: i32) -> (r: Result<(), Error>)
        ensures
            r is Ok,
            final(self)@ == old(self)@ + seq![ERL_INTEGER_EXT] + crate::io::be32(
                crate::io::rep32(v),
            ),
    {
        self.w.write_u8(ERL_INTEGER_EXT)?;
        self.w.write_i32(v)?;
        proof {
            assert(final(self)@ =~= old(self)@ + seq![ERL_INTEGER_EXT] + crate::io::be32(
                crate::io::rep32(v),
            ));
        }
        Ok(())
    }

    /// Emit a `SMALL_BIG_EXT` with the given sign byte and magnitude.
    pub fn write_small_big(&mut self, s: u8, v: u64) -> (r: Result<(), Error>)
        ensures
            r is Ok,
            final(self)@ == old(self)@ + small_big_bytes(s, v),
    {
        let mut mag: Vec<u8> = Vec::new();
        let mut x = v;
        while x != 0
            invariant
                le_min_bytes(v) == mag@ + le_min_bytes(x),
            decreases x,
        {
            proof {
                assert(le_min_bytes(x) == seq![(x % 256) as u8] + le_min_bytes(x / 256));
                assert(mag@ + (seq![(x % 256) as u8] + le_min_bytes(x / 256)) =~= mag@.push(
                    (x % 256) as u8,
                ) + le_min_bytes(x / 256));
            }
            mag.push((x % 256) as u8);
            x = x / 256;
        }
        proof {
            assert(le_min_bytes(v) =~= mag@);
            lemma_le_min_bytes_len8(v);
        }
        self.w.write_u8(ERL_SMALL_BIG_EXT)?;
        self.w.write_u8(mag.len() as u8)?;
        self.w.write_u8(s)?;
        self.w.write_all(mag.as_slice())?;
        proof {
            assert(final(self)@ =~= old(self)@ + small_big_bytes(s, v));
        }
        Ok(())
    }

    /// Emit a tuple header: the small form up to arity 255, the large
    /// form beyond.
    pub fn write_tuple(&mut self, len: usize) -> (r: Result<(), Error>)
        ensures
            r is Ok,
            final(self)@ == old(self)@ + tuple_header_bytes(len),
    {
        if len > 255 {
            self.w.write_u8(ERL_LARGE_TUPLE_EXT)?;
            self.w.write_u32(len as u32)?;
        } else {
            self.w.write_u8(ERL_SMALL_TUPLE_EXT)?;
            self.w.write_u8(len as u8)?;
        }
        proof {
            assert(final(self)@ =~= old(self)@ + tuple_header_bytes(len));
        }
        Ok(())
    }

    /// Emit a `NIL_EXT`: the empty list, empty string, and unit value.
    pub fn serialize_unit(&mut self) -> (r: Result<(), Error>)
        ensures
            r is Ok,
            final(self)@ == old(self)@ + seq![ERL_NIL_EXT],
    {
        self.w.write_u8(ERL_NIL_EXT)?;
        proof {
            assert(final(self)@ =~= old(self)@ + seq![ERL_NIL_EXT]);
        }
        Ok(())
    }

    /// Emit a boolean as a small UTF-8 atom `true` or `false`.
    pub fn serialize_bool(&mut self, v: bool) -> (r: Result<(), Error>)
        ensures
            r is Ok,
            final(self)@ == old(self)@ + bool_bytes(v),
    {
        if v {
            self.w.write_u8(ERL_SMALL_ATOM_UTF8_EXT)?;
            self.w.write_u8(4)?;
            self.w.write_u8(0x74)?;
            self.w.write_u8(0x72)?;
            self.w.write_u8(0x75)?;
            self.w.write_u8(0x65)?;
        } else {
            self.w.write_u8(ERL_SMALL_ATOM_UTF8_EXT)?;
            self.w.write_u8(5)?;
            self.w.write_u8(0x66)?;
            self.w.write_u8(0x61)?;
            self.w.write_u8(0x6c)?;
            self.w.write_u8(0x73)?;
            self.w.write_u8(0x65)?;
        }
        proof {
            assert(final(self)@ =~= old(self)@ + bool_bytes(v));
        }
        Ok(())
    }

    pub fn serialize_u8(&mut self, v: u8) -> (r: Result<(), Error>)
        ensures
            r is Ok,
            final(self)@ == old(self)@ + uint_bytes(v as u64),
    {
        self.write_u8(v)
    }

    pub fn serialize_u16(&mut self, v: u16) -> (r: Result<(), Error>)
        ensures
            r is Ok,
            final(self)@ == old(self)@ + uint_bytes(v as u64),
    {
        if v <= 255 {
            self.write_u8(v as u8)
        } else {
            self.write_i27(v as i32)
        }
    }

    pub fn serialize_u32(&mut self, v: u32) -> (r: Result<(), Error>)
        ensures
            r is Ok,
            final(self)@ == old(self)@ + uint_bytes(v as u64),
    {
        if v <= 255 {
            self.write_u8(v as u8)
        } else if v <= I27_MAX as u32 {
            self.write_i27(v as i32)
        } else {
            self.write_small_big(0, v as u64)
        }
    }

    pub fn serialize_u64(&mut self, v: u64) -> (r: Result<(), Error>)
        ensures
            r is Ok,
            final(self)@ == old(self)@ + uint_bytes(v),
    {
        if v <= 255 {
            self.write_u8(v as u8)
        } else if v <= I27_MAX as u64 {
            self.write_i27(v as i32)
        } else {
            self.write_small_big(0, v)
        }
    }

    pub fn serialize_i8(&mut self, v: i8) -> (r: Result<(), Error>)
        ensures
            r is Ok,
            final(self)@ == old(self)@ + sint_bytes(v as i64),
    {
        if v >= 0 {
            self.write_u8(v as u8)
        } else {
            self.write_i27(v as i32)
        }
    }

    pub fn serialize_i16(&mut self, v: i16) -> (r: Result<(), Error>)
        ensures
            r is Ok,
            final(self)@ == old(self)@ + sint_bytes(v as i64),
    {
        if 0 <= v && v <= 255 {
            self.write_u8(v as u8)
        } else {
            self.write_i27(v as i32)
        }
    }

    pub fn serialize_i32(&mut self, v: i32) -> (r: Result<(), Error>)
        ensures
            v != i32::MIN ==> r is Ok && final(self)@ == old(self)@ + sint_bytes(v as i64),
            v == i32::MIN ==> r == Err::<(), Error>(Error::Io(IoKind::InvalidInput))
                && *final(self) == *old(self),
    {
        if 0 <= v && v <= 255 {
            self.write_u8(v as u8)
        } else if I27_MIN <= v && v <= I27_MAX {
            self.write_i27(v)
        } else if v > 0 {
            self.write_small_big(0, v as u64)
        } else if v > i32::MIN {
            self.write_small_big(1, (-v) as u64)
        } else {
            Err(Error::Io(IoKind::InvalidInput))
        }
    }

    pub fn serialize_i64(&mut self, v: i64) -> (r: Result<(), Error>)
        ensures
            v != i64::MIN ==> r is Ok && final(self)@ == old(self)@ + sint_bytes(v),
            v == i64::MIN ==> r == Err::<(), Error>(Error::Io(IoKind::InvalidInput))
                && *final(self) == *old(self),
    {
        if 0 <= v && v <= 255 {
            self.write_u8(v as u8)
        } else if I27_MIN as i64 <= v && v <= I27_MAX as i64 {
            self.write_i27(v as i32)
        } else if v > 0 {
            self.write_small_big(0, v as u64)
        } else if v > i64::MIN {
            self.write_small_big(1, (-v) as u64)
        } else {
            Err(Error::Io(IoKind::InvalidInput))
        }
    }

    /// Emit a `NEW_FLOAT_EXT` from an IEEE-754 bit pattern.
    pub fn serialize_f64_bits(&mut self, bits: u64) -> (r: Result<(), Error>)
        ensures
            r is Ok,
            final(self)@ == old(self)@ + float_bytes(bits),
    {
        self.w.write_u8(NEW_FLOAT_EXT)?;
        self.w.write_u64(bits)?;
        proof {
            assert(final(self)@ =~= old(self)@ + float_bytes(bits));
        }
        Ok(())
    }

    /// Emit a string: `NIL_EXT` when empty, else `STRING_EXT`.
    pub fn serialize_str(&mut self, v: &[u8]) -> (r: Result<(), Error>)
        ensures
            v@.len() <= 65535 ==> r is Ok && final(self)@ == old(self)@ + str_bytes(v@),
            v@.len() > 65535 ==> r == Err::<(), Error>(Error::Io(IoKind::InvalidInput))
                && *final(self) == *old(self),
    {
        let n = v.len();
        if n == 0 {
            self.serialize_unit()
        } else if n <= 65535 {
            self.w.write_u8(ERL_STRING_EXT)?;
            self.w.write_u16(n as u16)?;
            self.w.write_all(v)?;
            proof {
                assert(final(self)@ =~= old(self)@ + str_bytes(v@));
            }
            Ok(())
        } else {
            Err(Error::Io(IoKind::InvalidInput))
        }
    }

    /// Emit a `BINARY_EXT`.
    pub fn serialize_bytes(&mut self, v: &[u8]) -> (r: Result<(), Error>)
        ensures
            v@.len() <= u32::MAX ==> r is Ok && final(self)@ == old(self)@ + binary_bytes(v@),
            v@.len() > u32::MAX ==> r == Err::<(), Error>(Error::Io(IoKind::InvalidInput))
                && *final(self) == *old(self),
    {
        let n = v.len();
        if n as u64 <= u32::MAX as u64 {
            self.w.write_u8(ERL_BINARY_EXT)?;
            self.w.write_u32(n as u32)?;
            self.w.write_all(v)?;
            proof {
                assert(final(self)@ =~= old(self)@ + binary_bytes(v@));
            }
            Ok(())
        } else {
            Err(Error::Io(IoKind::InvalidInput))
        }
    }

    /// Emit a `LIST_EXT` header; the caller emits the elements and the
    /// trailing `NIL_EXT`.
    pub fn serialize_list_header(&mut self, n: u32) -> (r: Result<(), Error>)
        ensures
            r is Ok,
            final(self)@ == old(self)@ + list_header_bytes(n),
    {
        self.w.write_u8(ERL_LIST_EXT)?;
        self.w.write_u32(n)?;
        proof {
            assert(final(self)@ =~= old(self)@ + list_header_bytes(n));
        }
        Ok(())
    }

    /// Emit a `MAP_EXT` header; the caller emits the alternating keys
    /// and values.
    pub fn serialize_map_header(&mut self, n: u32) -> (r: Result<(), Error>)
        ensures
            r is Ok,
            final(self)@ == old(self)@ + map_header_bytes(n),
    {
        self.w.write_u8(ERL_MAP_EXT)?;
        self.w.write_u32(n)?;
        proof {
            assert(final(self)@ =~= old(self)@ + map_header_bytes(n));
        }
        Ok(())
    }

    /// Emit an atom under its own wire encoding's tag.
    pub fn write_atom(&mut self, a: &Atom) -> (r: Result<(), Error>)
        ensures
            atom_len_ok(a@) ==> r is Ok && final(self)@ == old(self)@ + atom_bytes(a@),
            !atom_len_ok(a@) ==> r == Err::<(), Error>(Error::Range) && *final(self) == *old(
                self,
            ),
    {
        if !atom_ok(a) {
            return Err(Error::Range);
        }
        match a {
            Atom::Latin1(s) => {
                self.w.write_u8(ERL_ATOM_EXT)?;
                self.w.write_u16(s.len() as u16)?;
                self.w.write_all(s.as_slice())?;
            }
            Atom::UTF8Small(s) => {
                self.w.write_u8(ERL_SMALL_ATOM_UTF8_EXT)?;
                self.w.write_u8(s.len() as u8)?;
                self.w.write_all(s.as_slice())?;
            }
            Atom::UTF8(s) => {
                self.w.write_u8(ERL_ATOM_UTF8_EXT)?;
                self.w.write_u16(s.len() as u16)?;
                self.w.write_all(s.as_slice())?;
            }
        }
        proof {
            assert(final(self)@ =~= old(self)@ + atom_bytes(a@));
        }
        Ok(())
    }

    /// Emit a pid: the legacy masked form when its creation is at most
    /// 3, else the full-width new form.
    pub fn write_pid(&mut self, p: &Pid) -> (r: Result<(), Error>)
        ensures
            pid_enc_ok(p@) ==> r is Ok && final(self)@ == old(self)@ + pid_bytes(p@),
            !pid_enc_ok(p@) ==> r == Err::<(), Error>(Error::Range) && *final(self) == *old(
                self,
            ),
    {
        if !pid_ok(p) {
            return Err(Error::Range);
        }
        if p.creation <= 3 {
            self.w.write_u8(ERL_PID_EXT)?;
            self.write_atom(&p.node)?;
            self.w.write_u32(p.num % 0x8000)?;
            self.w.write_u32(p.serial % 0x2000)?;
            self.w.write_u8((p.creation % 4) as u8)?;
        } else {
            self.w.write_u8(ERL_NEW_PID_EXT)?;
            self.write_atom(&p.node)?;
            self.w.write_u32(p.num)?;
            self.w.write_u32(p.serial)?;
            self.w.write_u32(p.creation)?;
        }
        proof {
            assert(final(self)@ =~= old(self)@ + pid_bytes(p@));
        }
        Ok(())
    }

    /// Emit a port under its shape's tag; the legacy `PORT_EXT` form is
    /// never emitted.
    pub fn write_port(&mut self, p: &Port) -> (r: Result<(), Error>)
        ensures
            port_enc_ok(p@) ==> r is Ok && final(self)@ == old(self)@ + port_bytes(p@),
            !port_enc_ok(p@) ==> r == Err::<(), Error>(Error::Range) && *final(self) == *old(
                self,
            ),
    {
        if !port_ok(p) {
            return Err(Error::Range);
        }
        match p {
            Port::NewPort { node, id, creation } => {
                self.w.write_u8(ERL_NEW_PORT_EXT)?;
                self.write_atom(node)?;
                self.w.write_u32(*id)?;
                self.w.write_u32(*creation)?;
            }
            Port::V4Port { node, id, creation } => {
                self.w.write_u8(ERL_V4_PORT_EXT)?;
                self.write_atom(node)?;
                self.w.write_u64(*id)?;
                self.w.write_u32(*creation)?;
            }
        }
        proof {
            assert(final(self)@ =~= old(self)@ + port_bytes(p@));
        }
        Ok(())
    }

    /// Emit a reference: the legacy one-byte-creation form when its
    /// creation is at most 3, else the newer form.
    pub fn write_ref(&mut self, v: &Ref) -> (r: Result<(), Error>)
        ensures
            ref_enc_ok(v@) ==> r is Ok && final(self)@ == old(self)@ + ref_bytes(v@),
            !ref_enc_ok(v@) ==> r == Err::<(), Error>(Error::Range) && *final(self) == *old(
                self,
            ),
    {
        if !ref_ok(v) {
            return Err(Error::Range);
        }
        if v.creation <= 3 {
            self.w.write_u8(ERL_NEW_REFERENCE_EXT)?;
            self.w.write_i16(v.len)?;
            self.write_atom(&v.node)?;
            self.w.write_u8((v.creation % 4) as u8)?;
        } else {
            self.w.write_u8(ERL_NEWER_REFERENCE_EXT)?;
            self.w.write_i16(v.len)?;
            self.write_atom(&v.node)?;
            self.w.write_u32(v.creation)?;
        }
        let ghost mid = self@;
        if let Some(ws) = &v.n {
            let m = ws.len();
            let mut i: usize = 0;
            while i < m
                invariant
                    i <= m,
                    m == ws@.len(),
                    self@ == mid + words_bytes(ws@.take(i as int)),
                decreases m - i,
            {
                proof {
                    lemma_words_bytes_snoc(ws@.take(i as int), ws@[i as int]);
                    assert(ws@.take(i as int).push(ws@[i as int]) =~= ws@.take(i + 1));
                }
                self.w.write_u32(ws[i])?;
                i = i + 1;
            }
            proof {
                assert(ws@.take(m as int) =~= ws@);
            }
        }
        proof {
            assert(words_bytes(ref_words(v@).take(0)) =~= Seq::<u8>::empty());
            assert(final(self)@ =~= old(self)@ + ref_bytes(v@));
        }
        Ok(())
    }

    /// Emit a trace token: a 5-tuple in field order.
    pub fn write_trace(&mut self, t: &Trace) -> (r: Result<(), Error>)
        ensures
            trace_enc_ok(t@) ==> r is Ok && final(self)@ == old(self)@ + trace_bytes(t@),
            !trace_enc_ok(t@) ==> r is Err && *final(self) == *old(self),
    {
        if t.0 == i64::MIN || t.1 == i64::MIN || t.2 == i64::MIN || t.4 == i64::MIN {
            return Err(Error::Io(IoKind::InvalidInput));
        }
        if !pid_ok(&t.3) {
            return Err(Error::Range);
        }
        self.w.write_u8(ERL_SMALL_TUPLE_EXT)?;
        self.w.write_u8(5)?;
        self.serialize_i64(t.0)?;
        self.serialize_i64(t.1)?;
        self.serialize_i64(t.2)?;
        self.write_pid(&t.3)?;
        self.serialize_i64(t.4)?;
        proof {
            assert(final(self)@ =~= old(self)@ + trace_bytes(t@));
        }
        Ok(())
    }

    /// Emit a control message: a small tuple led by its opcode.
    #[verifier::rlimit(60)]
    pub fn write_msg(&mut self, m: &Msg) -> (r: Result<(), Error>)
        ensures
            msg_enc_ok(m@) ==> r is Ok && final(self)@ == old(self)@ + msg_bytes(m@),
            !msg_enc_ok(m@) ==> r is Err && *final(self) == *old(self),
    {
        if !msg_ok(m) {
            return Err(Error::Range);
        }
        match m {
            Msg::Send { cookie, to } => {
                self.w.write_u8(ERL_SMALL_TUPLE_EXT)?;
                self.w.write_u8(3)?;
                self.write_u8(crate::consts::ERL_SEND)?;
                self.write_atom(cookie)?;
                self.write_pid(to)?;
            }
            Msg::SendTT { cookie, to, token } => {
                self.w.write_u8(ERL_SMALL_TUPLE_EXT)?;
                self.w.write_u8(4)?;
                self.write_u8(crate::consts::ERL_SEND_TT)?;
                self.write_atom(cookie)?;
                self.write_pid(to)?;
                self.write_trace(token)?;
            }
            Msg::RegSend { from, cookie, toname } => {
                self.w.write_u8(ERL_SMALL_TUPLE_EXT)?;
                self.w.write_u8(4)?;
                self.write_u8(crate::consts::ERL_REG_SEND)?;
                self.write_pid(from)?;
                self.write_atom(cookie)?;
                self.write_atom(toname)?;
            }
            Msg::RegSendTT { from, cookie, toname, token } => {
                self.w.write_u8(ERL_SMALL_TUPLE_EXT)?;
                self.w.write_u8(5)?;
                self.write_u8(crate::consts::ERL_REG_SEND_TT)?;
                self.write_pid(from)?;
                self.write_atom(cookie)?;
                self.write_atom(toname)?;
                self.write_trace(token)?;
            }
            Msg::Exit { from, to, reason } => {
                self.w.write_u8(ERL_SMALL_TUPLE_EXT)?;
                self.w.write_u8(4)?;
                self.write_u8(crate::consts::ERL_EXIT)?;
                self.write_pid(from)?;
                self.write_pid(to)?;
                self.serialize_str(reason.as_slice())?;
            }
            Msg::ExitTT { from, to, token, reason } => {
                self.w.write_u8(ERL_SMALL_TUPLE_EXT)?;
                self.w.write_u8(5)?;
                self.write_u8(crate::consts::ERL_EXIT_TT)?;
                self.write_pid(from)?;
                self.write_pid(to)?;
                self.write_trace(token)?;
                self.serialize_str(reason.as_slice())?;
            }
        }
        proof {
            assert(final(self)@ =~= old(self)@ + msg_bytes(m@));
        }
        Ok(())
    }
}

/// Appending one word extends the word-byte concatenation by its
/// big-endian bytes.
pub proof fn lemma_words_bytes_snoc(ws: Seq<u32>, w: u32)
    ensures
        words_bytes(ws.push(w)) == words_bytes(ws) + crate::io::be32(w),
    decreases ws.len(),
{
    if ws.len() == 0 {
        assert(ws.push(w)[0] == w);
        assert(ws.push(w).skip(1) =~= Seq::<u32>::empty());
        assert(words_bytes(Seq::<u32>::empty()) == Seq::<u8>::empty());
        assert(ws =~= Seq::<u32>::empty());
        assert(words_bytes(ws.push(w)) == crate::io::be32(w) + Seq::<u8>::empty());
        assert(words_bytes(ws.push(w)) =~= words_bytes(ws) + crate::io::be32(w));
    } else {
        assert(ws.push(w).skip(1) =~= ws.skip(1).push(w));
        assert(ws.push(w)[0] == ws[0]);
        lemma_words_bytes_snoc(ws.skip(1), w);
        assert(words_bytes(ws.push(w)) == crate::io::be32(ws[0]) + words_bytes(
            ws.skip(1).push(w),
        ));
        assert(crate::io::be32(ws[0]) + (words_bytes(ws.skip(1)) + crate::io::be32(w)) =~= (
        crate::io::be32(ws[0]) + words_bytes(ws.skip(1))) + crate::io::be32(w));
        assert(words_bytes(ws.push(w)) =~= words_bytes(ws) + crate::io::be32(w));
    }
}

} // verus!
