//! The ETF decoder.
//!
//! Each decoding function has a complete functional specification: a
//! `*_parse` specification function maps the unread bytes to either
//! the decoded value and the number of bytes consumed, or the exact
//! error, and the executable function promises to agree with it. The
//! decoder accepts legacy tags and non-minimal integer forms that the
//! encoder never emits; what it returns is always well formed.
//!
//! Integer widening follows the protocol's fail-closed policy: a
//! value is accepted exactly when the target type can hold it, and a
//! negative small-big magnitude is accepted only up to the target's
//! positive bound, so `i32::MIN` and `i64::MIN` never decode from the
//! small-big form.

use vstd::prelude::*;

use crate::consts::{
    ERL_ATOM_EXT, ERL_ATOM_UTF8_EXT, ERL_BINARY_EXT, ERL_EXIT, ERL_EXIT_TT, ERL_INTEGER_EXT,
    ERL_LARGE_TUPLE_EXT, ERL_NEWER_REFERENCE_EXT, ERL_NEW_PID_EXT, ERL_NEW_PORT_EXT,
    ERL_NEW_REFERENCE_EXT, ERL_PID_EXT, ERL_PORT_EXT, ERL_REG_SEND, ERL_REG_SEND_TT, ERL_SEND,
    ERL_SEND_TT, ERL_V4_PORT_EXT,
    ERL_LIST_EXT, ERL_MAP_EXT, ERL_NIL_EXT, ERL_SMALL_BIG_EXT, ERL_SMALL_INTEGER_EXT,
    ERL_SMALL_ATOM_UTF8_EXT, ERL_SMALL_TUPLE_EXT, ERL_STRING_EXT, MAXATOMLEN, MAXATOMLEN_UTF8,
    NEW_FLOAT_EXT,
};
use crate::error::{Error, IoKind};
use crate::io::{sign16, sign32, u16_of, u32_of, u64_of, Number, Reader};
use crate::term::{
    atom_data, le_val, lemma_le_val_bound, pow256, Atom, AtomV, Msg, MsgV, Pid, PidV, Port,
    PortV, Ref, RefV, Trace, TraceV,
};
use crate::utf8::{check_utf8, is_utf8};

verus! {

// --- Numbers ------------------------------------------------------------

/// Parse a small-big body: magnitude byte count, sign byte, then the
/// little-endian magnitude. A count above eight bytes is rejected.
pub open spec fn small_big_parse(s: Seq<u8>) -> Result<(Number, int), Error> {
    if s.len() < 1 {
        Err(Error::Io(IoKind::UnexpectedEof))
    } else if s[0] > 8 {
        Err(Error::Io(IoKind::InvalidData))
    } else if s.len() < 2 + s[0] {
        Err(Error::Io(IoKind::UnexpectedEof))
    } else {
        Ok((Number::SmallBig(le_val(s.subrange(2, 2 + s[0])) as u64, s[1]), 2 + s[0]))
    }
}

/// Parse a number at the head of the stream: one of the three numeric
/// tags.
pub open spec fn num_parse(s: Seq<u8>) -> Result<(Number, int), Error> {
    if s.len() < 1 {
        Err(Error::Io(IoKind::UnexpectedEof))
    } else if s[0] == ERL_SMALL_INTEGER_EXT {
        if s.len() < 2 {
            Err(Error::Io(IoKind::UnexpectedEof))
        } else {
            Ok((Number::U8(s[1]), 2))
        }
    } else if s[0] == ERL_INTEGER_EXT {
        if s.len() < 5 {
            Err(Error::Io(IoKind::UnexpectedEof))
        } else {
            Ok((Number::I32(sign32(u32_of(s[1], s[2], s[3], s[4])) as i32), 5))
        }
    } else if s[0] == ERL_SMALL_BIG_EXT {
        match small_big_parse(s.skip(1)) {
            Ok((n, k)) => Ok((n, 1 + k)),
            Err(e) => Err(e),
        }
    } else {
        Err(Error::Io(IoKind::InvalidData))
    }
}

/// Widen a number to an unsigned target with the given maximum: it
/// fits exactly when the target can hold it and the sign is 0.
pub open spec fn widen_uint(n: Number, max: int) -> Result<int, Error> {
    match n {
        Number::U8(u) => if u <= max {
            Ok(u as int)
        } else {
            Err(Error::Io(IoKind::InvalidData))
        },
        Number::I32(i) => if 0 <= i && i <= max {
            Ok(i as int)
        } else {
            Err(Error::Io(IoKind::InvalidData))
        },
        Number::SmallBig(u, sgn) => if sgn == 0 && u <= max {
            Ok(u as int)
        } else {
            Err(Error::Io(IoKind::InvalidData))
        },
    }
}

/// Narrow a number to a signed target with the given maximum
/// (minimum `-max - 1`). A small-big magnitude is accepted only up to
/// `max`, for either sign, so the target's minimum never decodes from
/// the small-big form.
pub open spec fn widen_sint(n: Number, max: int) -> Result<int, Error> {
    match n {
        Number::U8(u) => if u <= max {
            Ok(u as int)
        } else {
            Err(Error::Io(IoKind::InvalidData))
        },
        Number::I32(i) => if -max - 1 <= i && i <= max {
            Ok(i as int)
        } else {
            Err(Error::Io(IoKind::InvalidData))
        },
        Number::SmallBig(u, sgn) => if sgn == 0 && u <= max {
            Ok(u as int)
        } else if sgn == 1 && u <= max {
            Ok(-(u as int))
        } else {
            Err(Error::Io(IoKind::InvalidData))
        },
    }
}

/// Parse a number and widen it to an unsigned target.
#[verifier::opaque]
pub open spec fn parse_uint(s: Seq<u8>, max: int) -> Result<(int, int), Error> {
    match num_parse(s) {
        Ok((n, k)) => match widen_uint(n, max) {
            Ok(v) => Ok((v, k)),
            Err(e) => Err(e),
        },
        Err(e) => Err(e),
    }
}

/// Parse a number and narrow it to a signed target.
#[verifier::opaque]
pub open spec fn parse_sint(s: Seq<u8>, max: int) -> Result<(int, int), Error> {
    match num_parse(s) {
        Ok((n, k)) => match widen_sint(n, max) {
            Ok(v) => Ok((v, k)),
            Err(e) => Err(e),
        },
        Err(e) => Err(e),
    }
}

// --- Deserializer -------------------------------------------------------

/// The ETF decoder: consumes term encodings from a `Reader`.
pub struct Deserializer {
    reader: Reader,
}

impl Deserializer {
    pub closed spec fn wf(&self) -> bool {
        self.reader.wf()
    }

    /// The bytes not yet consumed.
    pub closed spec fn remaining(&self) -> Seq<u8> {
        self.reader.remaining()
    }

    pub fn new(reader: Reader) -> (r: Deserializer)
        requires
            reader.wf(),
        ensures
            r.wf(),
            r.remaining() == reader.remaining(),
    {
        Deserializer { reader }
    }

    /// How many bytes are left to read.
    pub fn len(&self) -> (r: usize)
        requires
            self.wf(),
        ensures
            r == self.remaining().len(),
    {
        self.reader.len()
    }


    /// Read one raw byte (no term tag).
    pub fn read_u8_raw(&mut self) -> (r: Result<u8, Error>)
        requires
            old(self).wf(),
        ensures
            final(self).wf(),
            old(self).remaining().len() >= 1 ==> r == Ok::<u8, Error>(old(self).remaining()[0])
                && final(self).remaining() == old(self).remaining().skip(1),
            old(self).remaining().len() < 1 ==> r == Err::<u8, Error>(
                Error::Io(IoKind::UnexpectedEof),
            ),
    {
        self.reader.read_u8()
    }

    /// Read exactly `n` raw bytes.
    pub fn read_exact_raw(&mut self, n: usize) -> (r: Result<Vec<u8>, Error>)
        requires
            old(self).wf(),
        ensures
            final(self).wf(),
            old(self).remaining().len() >= n ==> r is Ok && r->Ok_0@ == old(
                self,
            ).remaining().take(n as int) && final(self).remaining() == old(self).remaining().skip(
                n as int,
            ),
            old(self).remaining().len() < n ==> r == Err::<Vec<u8>, Error>(
                Error::Io(IoKind::UnexpectedEof),
            ),
    {
        self.reader.read_exact_usize(n)
    }

    /// Read one number, in whichever of the three numeric forms is
    /// present.
    pub fn read_number(&mut self) -> (r: Result<Number, Error>)
        requires
            old(self).wf(),
        ensures
            final(self).wf(),
            match num_parse(old(self).remaining()) {
                Ok((n, k)) => r == Ok::<Number, Error>(n) && final(self).remaining() == old(
                    self,
                ).remaining().skip(k),
                Err(e) => r == Err::<Number, Error>(e),
            },
    {
        let tag = self.reader.read_u8()?;
        if tag == ERL_SMALL_INTEGER_EXT {
            let u = self.reader.read_u8()?;
            Ok(Number::U8(u))
        } else if tag == ERL_INTEGER_EXT {
            let i = self.reader.read_i32()?;
            Ok(Number::I32(i))
        } else if tag == ERL_SMALL_BIG_EXT {
            self.read_small_big()
        } else {
            Err(Error::Io(IoKind::InvalidData))
        }
    }

    /// Read a small-big body (the tag byte already consumed).
    pub fn read_small_big(&mut self) -> (r: Result<Number, Error>)
        requires
            old(self).wf(),
        ensures
            final(self).wf(),
            match small_big_parse(old(self).remaining()) {
                Ok((n, k)) => r == Ok::<Number, Error>(n) && final(self).remaining() == old(
                    self,
                ).remaining().skip(k),
                Err(e) => r == Err::<Number, Error>(e),
            },
    {
        let count = self.reader.read_u8()?;
        if count > 8 {
            return Err(Error::Io(IoKind::InvalidData));
        }
        let sgn = self.reader.read_u8()?;
        let m = self.reader.read_exact_usize(count as usize)?;
        let ghost s = old(self).remaining();
        proof {
            assert(m@ =~= s.subrange(2, 2 + count));
            assert(final(self).remaining() =~= s.skip(2 + count));
        }
        let mut acc: u64 = 0;
        let mut j: usize = m.len();
        proof {
            assert(m@.skip(j as int) =~= Seq::<u8>::empty());
        }
        while j > 0
            invariant
                j <= m@.len() <= 8,
                acc == le_val(m@.skip(j as int)),
            decreases j,
        {
            proof {
                lemma_le_val_bound(m@.skip(j as int));
                reveal_with_fuel(pow256, 9);
                assert(pow256((m@.len() - j) as nat) <= pow256(7)) by {
                    crate::term::lemma_pow256_le((m@.len() - j) as nat, 7);
                }
                assert(m@.skip(j - 1)[0] == m@[j - 1]);
                assert(m@.skip(j - 1).skip(1) =~= m@.skip(j as int));
            }
            j = j - 1;
            acc = acc * 256 + (m[j] as u64);
        }
        proof {
            assert(m@.skip(0) =~= m@);
            lemma_le_val_bound(m@);
            reveal_with_fuel(pow256, 9);
            crate::term::lemma_pow256_le(m@.len(), 8);
        }
        Ok(Number::SmallBig(acc, sgn))
    }

    pub fn read_u8(&mut self) -> (r: Result<u8, Error>)
        requires
            old(self).wf(),
        ensures
            final(self).wf(),
            match parse_uint(old(self).remaining(), 255) {
                Ok((v, k)) => r is Ok && r->Ok_0 == v && final(self).remaining() == old(
                    self,
                ).remaining().skip(k),
                Err(e) => r == Err::<u8, Error>(e),
            },
    {
        proof {
            reveal(parse_uint);
        }
        match self.read_number()? {
            Number::U8(u) => Ok(u),
            Number::I32(i) => if 0 <= i && i <= 255 {
                Ok(i as u8)
            } else {
                Err(Error::Io(IoKind::InvalidData))
            },
            Number::SmallBig(u, sgn) => if sgn == 0 && u <= 255 {
                Ok(u as u8)
            } else {
                Err(Error::Io(IoKind::InvalidData))
            },
        }
    }

    pub fn read_u16(&mut self) -> (r: Result<u16, Error>)
        requires
            old(self).wf(),
        ensures
            final(self).wf(),
            match parse_uint(old(self).remaining(), 65535) {
                Ok((v, k)) => r is Ok && r->Ok_0 == v && final(self).remaining() == old(
                    self,
                ).remaining().skip(k),
                Err(e) => r == Err::<u16, Error>(e),
            },
    {
        proof {
            reveal(parse_uint);
        }
        match self.read_number()? {
            Number::U8(u) => Ok(u as u16),
            Number::I32(i) => if 0 <= i && i <= 65535 {
                Ok(i as u16)
            } else {
                Err(Error::Io(IoKind::InvalidData))
            },
            Number::SmallBig(u, sgn) => if sgn == 0 && u <= 65535 {
                Ok(u as u16)
            } else {
                Err(Error::Io(IoKind::InvalidData))
            },
        }
    }

    pub fn read_u32(&mut self) -> (r: Result<u32, Error>)
        requires
            old(self).wf(),
        ensures
            final(self).wf(),
            match parse_uint(old(self).remaining(), u32::MAX as int) {
                Ok((v, k)) => r is Ok && r->Ok_0 == v && final(self).remaining() == old(
                    self,
                ).remaining().skip(k),
                Err(e) => r == Err::<u32, Error>(e),
            },
    {
        proof {
            reveal(parse_uint);
        }
        match self.read_number()? {
            Number::U8(u) => Ok(u as u32),
            Number::I32(i) => if i >= 0 {
                Ok(i as u32)
            } else {
                Err(Error::Io(IoKind::InvalidData))
            },
            Number::SmallBig(u, sgn) => if sgn == 0 && u <= u32::MAX as u64 {
                Ok(u as u32)
            } else {
                Err(Error::Io(IoKind::InvalidData))
            },
        }
    }

    pub fn read_u64(&mut self) -> (r: Result<u64, Error>)
        requires
            old(self).wf(),
        ensures
            final(self).wf(),
            match parse_uint(old(self).remaining(), u64::MAX as int) {
                Ok((v, k)) => r is Ok && r->Ok_0 == v && final(self).remaining() == old(
                    self,
                ).remaining().skip(k),
                Err(e) => r == Err::<u64, Error>(e),
            },
    {
        proof {
            reveal(parse_uint);
        }
        match self.read_number()? {
            Number::U8(u) => Ok(u as u64),
            Number::I32(i) => if i >= 0 {
                Ok(i as u64)
            } else {
                Err(Error::Io(IoKind::InvalidData))
            },
            Number::SmallBig(u, sgn) => if sgn == 0 {
                Ok(u)
            } else {
                Err(Error::Io(IoKind::InvalidData))
            },
        }
    }

    pub fn read_i8(&mut self) -> (r: Result<i8, Error>)
        requires
            old(self).wf(),
        ensures
            final(self).wf(),
            match parse_sint(old(self).remaining(), 127) {
                Ok((v, k)) => r is Ok && r->Ok_0 == v && final(self).remaining() == old(
                    self,
                ).remaining().skip(k),
                Err(e) => r == Err::<i8, Error>(e),
            },
    {
        proof {
            reveal(parse_sint);
        }
        match self.read_number()? {
            Number::U8(u) => if u <= 127 {
                Ok(u as i8)
            } else {
                Err(Error::Io(IoKind::InvalidData))
            },
            Number::I32(i) => if -128 <= i && i <= 127 {
                Ok(i as i8)
            } else {
                Err(Error::Io(IoKind::InvalidData))
            },
            Number::SmallBig(u, sgn) => if sgn == 0 && u <= 127 {
                Ok(u as i8)
            } else if sgn == 1 && u <= 127 {
                Ok(-(u as i8))
            } else {
                Err(Error::Io(IoKind::InvalidData))
            },
        }
    }

    pub fn read_i16(&mut self) -> (r: Result<i16, Error>)
        requires
            old(self).wf(),
        ensures
            final(self).wf(),
            match parse_sint(old(self).remaining(), 32767) {
                Ok((v, k)) => r is Ok && r->Ok_0 == v && final(self).remaining() == old(
                    self,
                ).remaining().skip(k),
                Err(e) => r == Err::<i16, Error>(e),
            },
    {
        proof {
            reveal(parse_sint);
        }
        match self.read_number()? {
            Number::U8(u) => Ok(u as i16),
            Number::I32(i) => if -32768 <= i && i <= 32767 {
                Ok(i as i16)
            } else {
                Err(Error::Io(IoKind::InvalidData))
            },
            Number::SmallBig(u, sgn) => if sgn == 0 && u <= 32767 {
                Ok(u as i16)
            } else if sgn == 1 && u <= 32767 {
                Ok(-(u as i16))
            } else {
                Err(Error::Io(IoKind::InvalidData))
            },
        }
    }

    pub fn read_i32(&mut self) -> (r: Result<i32, Error>)
        requires
            old(self).wf(),
        ensures
            final(self).wf(),
            match parse_sint(old(self).remaining(), i32::MAX as int) {
                Ok((v, k)) => r is Ok && r->Ok_0 == v && final(self).remaining() == old(
                    self,
                ).remaining().skip(k),
                Err(e) => r == Err::<i32, Error>(e),
            },
    {
        proof {
            reveal(parse_sint);
        }
        match self.read_number()? {
            Number::U8(u) => Ok(u as i32),
            Number::I32(i) => Ok(i),
            Number::SmallBig(u, sgn) => if sgn == 0 && u <= i32::MAX as u64 {
                Ok(u as i32)
            } else if sgn == 1 && u <= i32::MAX as u64 {
                Ok(-(u as i32))
            } else {
                Err(Error::Io(IoKind::InvalidData))
            },
        }
    }

    pub fn read_i64(&mut self) -> (r: Result<i64, Error>)
        requires
            old(self).wf(),
        ensures
            final(self).wf(),
            match parse_sint(old(self).remaining(), i64::MAX as int) {
                Ok((v, k)) => r is Ok && r->Ok_0 == v && final(self).remaining() == old(
                    self,
                ).remaining().skip(k),
                Err(e) => r == Err::<i64, Error>(e),
            },
    {
        proof {
            reveal(parse_sint);
        }
        match self.read_number()? {
            Number::U8(u) => Ok(u as i64),
            Number::I32(i) => Ok(i as i64),
            Number::SmallBig(u, sgn) => if sgn == 0 && u <= i64::MAX as u64 {
                Ok(u as i64)
            } else if sgn == 1 && u <= i64::MAX as u64 {
                Ok(-(u as i64))
            } else {
                Err(Error::Io(IoKind::InvalidData))
            },
        }
    }
}


// --- Units, booleans, strings, binaries, floats, headers ----------------

/// Parse a `NIL_EXT`, consuming one byte.
pub open spec fn unit_parse(s: Seq<u8>) -> Result<int, Error> {
    if s.len() < 1 {
        Err(Error::Io(IoKind::UnexpectedEof))
    } else if s[0] == ERL_NIL_EXT {
        Ok(1)
    } else {
        Err(Error::Io(IoKind::InvalidData))
    }
}

/// Parse an atom under any of the three atom tags. The payload must
/// be well-formed UTF-8 and within the tag's length bound; the
/// variant returned records the tag seen.
#[verifier::opaque]
pub open spec fn atom_parse(s: Seq<u8>) -> Result<(AtomV, int), Error> {
    if s.len() < 1 {
        Err(Error::Io(IoKind::UnexpectedEof))
    } else if s[0] == ERL_ATOM_EXT || s[0] == ERL_ATOM_UTF8_EXT {
        if s.len() < 3 {
            Err(Error::Io(IoKind::UnexpectedEof))
        } else {
            let n = u16_of(s[1], s[2]);
            if s.len() < 3 + n {
                Err(Error::Io(IoKind::UnexpectedEof))
            } else {
                let c = s.subrange(3, 3 + n);
                if !is_utf8(c) {
                    Err(Error::Utf8)
                } else if s[0] == ERL_ATOM_EXT {
                    if n < MAXATOMLEN {
                        Ok((AtomV::Latin1(c), 3 + n))
                    } else {
                        Err(Error::Io(IoKind::InvalidData))
                    }
                } else {
                    if n < MAXATOMLEN_UTF8 {
                        Ok((AtomV::UTF8(c), 3 + n))
                    } else {
                        Err(Error::Io(IoKind::InvalidData))
                    }
                }
            }
        }
    } else if s[0] == ERL_SMALL_ATOM_UTF8_EXT {
        if s.len() < 2 {
            Err(Error::Io(IoKind::UnexpectedEof))
        } else {
            let n = s[1] as int;
            if s.len() < 2 + n {
                Err(Error::Io(IoKind::UnexpectedEof))
            } else {
                let c = s.subrange(2, 2 + n);
                if !is_utf8(c) {
                    Err(Error::Utf8)
                } else {
                    Ok((AtomV::UTF8Small(c), 2 + n))
                }
            }
        }
    } else {
        Err(Error::Io(IoKind::InvalidData))
    }
}

/// The atom name of the boolean `true`.
pub open spec fn true_name() -> Seq<u8> {
    seq![0x74u8, 0x72u8, 0x75u8, 0x65u8]
}

/// Parse a boolean: an atom under any tag, true exactly when its name
/// is `true`.
#[verifier::opaque]
pub open spec fn bool_parse(s: Seq<u8>) -> Result<(bool, int), Error> {
    match atom_parse(s) {
        Ok((a, k)) => Ok((atom_data(a) == true_name(), k)),
        Err(e) => Err(e),
    }
}

/// Parse a string: `NIL_EXT` is empty, `STRING_EXT` carries a
/// u16-prefixed UTF-8 payload.
#[verifier::opaque]
pub open spec fn str_parse(s: Seq<u8>) -> Result<(Seq<u8>, int), Error> {
    if s.len() < 1 {
        Err(Error::Io(IoKind::UnexpectedEof))
    } else if s[0] == ERL_NIL_EXT {
        Ok((Seq::empty(), 1))
    } else if s[0] == ERL_STRING_EXT {
        if s.len() < 3 {
            Err(Error::Io(IoKind::UnexpectedEof))
        } else {
            let n = u16_of(s[1], s[2]);
            if s.len() < 3 + n {
                Err(Error::Io(IoKind::UnexpectedEof))
            } else {
                let c = s.subrange(3, 3 + n);
                if is_utf8(c) {
                    Ok((c, 3 + n))
                } else {
                    Err(Error::Utf8)
                }
            }
        }
    } else {
        Err(Error::Io(IoKind::InvalidData))
    }
}

/// Parse a `BINARY_EXT`: a u32-prefixed opaque payload.
#[verifier::opaque]
pub open spec fn binary_parse(s: Seq<u8>) -> Result<(Seq<u8>, int), Error> {
    if s.len() < 1 {
        Err(Error::Io(IoKind::UnexpectedEof))
    } else if s[0] != ERL_BINARY_EXT {
        Err(Error::Io(IoKind::InvalidData))
    } else if s.len() < 5 {
        Err(Error::Io(IoKind::UnexpectedEof))
    } else {
        let n = u32_of(s[1], s[2], s[3], s[4]);
        if s.len() < 5 + n {
            Err(Error::Io(IoKind::UnexpectedEof))
        } else {
            Ok((s.subrange(5, 5 + n), 5 + n))
        }
    }
}

/// Parse a `NEW_FLOAT_EXT` into its IEEE-754 bit pattern. The older
/// textual float form is rejected.
#[verifier::opaque]
pub open spec fn float_parse(s: Seq<u8>) -> Result<(u64, int), Error> {
    if s.len() < 1 {
        Err(Error::Io(IoKind::UnexpectedEof))
    } else if s[0] != NEW_FLOAT_EXT {
        Err(Error::Io(IoKind::InvalidData))
    } else if s.len() < 9 {
        Err(Error::Io(IoKind::UnexpectedEof))
    } else {
        Ok((u64_of(s[1], s[2], s[3], s[4], s[5], s[6], s[7], s[8]) as u64, 9))
    }
}

/// Parse a tuple header, returning the arity.
pub open spec fn tuple_parse(s: Seq<u8>) -> Result<(int, int), Error> {
    if s.len() < 1 {
        Err(Error::Io(IoKind::UnexpectedEof))
    } else if s[0] == ERL_SMALL_TUPLE_EXT {
        if s.len() < 2 {
            Err(Error::Io(IoKind::UnexpectedEof))
        } else {
            Ok((s[1] as int, 2))
        }
    } else if s[0] == ERL_LARGE_TUPLE_EXT {
        if s.len() < 5 {
            Err(Error::Io(IoKind::UnexpectedEof))
        } else {
            Ok((u32_of(s[1], s[2], s[3], s[4]), 5))
        }
    } else {
        Err(Error::Io(IoKind::InvalidData))
    }
}

/// Parse a list header. `None` is the empty list (`NIL_EXT`,
/// complete); `Some(n)` announces `n` elements followed by a trailing
/// `NIL_EXT`.
pub open spec fn list_parse(s: Seq<u8>) -> Result<(Option<u32>, int), Error> {
    if s.len() < 1 {
        Err(Error::Io(IoKind::UnexpectedEof))
    } else if s[0] == ERL_NIL_EXT {
        Ok((None, 1))
    } else if s[0] == ERL_LIST_EXT {
        if s.len() < 5 {
            Err(Error::Io(IoKind::UnexpectedEof))
        } else {
            Ok((Some(u32_of(s[1], s[2], s[3], s[4]) as u32), 5))
        }
    } else {
        Err(Error::Io(IoKind::InvalidData))
    }
}

/// Parse a map header, returning the number of key-value pairs.
pub open spec fn map_parse(s: Seq<u8>) -> Result<(u32, int), Error> {
    if s.len() < 1 {
        Err(Error::Io(IoKind::UnexpectedEof))
    } else if s[0] != ERL_MAP_EXT {
        Err(Error::Io(IoKind::InvalidData))
    } else if s.len() < 5 {
        Err(Error::Io(IoKind::UnexpectedEof))
    } else {
        Ok((u32_of(s[1], s[2], s[3], s[4]) as u32, 5))
    }
}

/// Check whether a byte buffer spells the atom name `true`.
fn eq_true_name(v: &Vec<u8>) -> (r: bool)
    ensures
        r == (v@ == true_name()),
{
    let r = v.len() == 4 && v[0] == 0x74 && v[1] == 0x72 && v[2] == 0x75 && v[3] == 0x65;
    proof {
        if r {
            assert(v@ =~= true_name());
        } else {
            if v@ == true_name() {
                assert(v@.len() == 4);
                assert(v@[0] == 0x74 && v@[1] == 0x72 && v@[2] == 0x75 && v@[3] == 0x65);
            }
        }
    }
    r
}

impl Deserializer {
    /// Read a `NIL_EXT`.
    pub fn read_unit(&mut self) -> (r: Result<(), Error>)
        requires
            old(self).wf(),
        ensures
            final(self).wf(),
            match unit_parse(old(self).remaining()) {
                Ok(k) => r is Ok && final(self).remaining() == old(self).remaining().skip(k),
                Err(e) => r == Err::<(), Error>(e),
            },
    {
        let tag = self.reader.read_u8()?;
        if tag == ERL_NIL_EXT {
            Ok(())
        } else {
            Err(Error::Io(IoKind::InvalidData))
        }
    }

    /// Read an atom under any of the three atom tags.
    pub fn read_atom(&mut self) -> (r: Result<Atom, Error>)
        requires
            old(self).wf(),
        ensures
            final(self).wf(),
            match atom_parse(old(self).remaining()) {
                Ok((a, k)) => r is Ok && r->Ok_0@ == a && final(self).remaining() == old(
                    self,
                ).remaining().skip(k),
                Err(e) => r == Err::<Atom, Error>(e),
            },
    {
        proof {
            reveal(atom_parse);
        }
        let ghost s = old(self).remaining();
        let tag = self.reader.read_u8()?;
        if tag == ERL_ATOM_EXT || tag == ERL_ATOM_UTF8_EXT {
            let n = self.reader.read_u16()?;
            let c = self.reader.read_exact_usize(n as usize)?;
            proof {
                assert(c@ =~= s.subrange(3, 3 + n));
                assert(final(self).remaining() =~= s.skip(3 + n));
            }
            if !check_utf8(&c) {
                return Err(Error::Utf8);
            }
            if tag == ERL_ATOM_EXT {
                if (n as usize) < MAXATOMLEN {
                    Ok(Atom::Latin1(c))
                } else {
                    Err(Error::Io(IoKind::InvalidData))
                }
            } else {
                if (n as usize) < MAXATOMLEN_UTF8 {
                    Ok(Atom::UTF8(c))
                } else {
                    Err(Error::Io(IoKind::InvalidData))
                }
            }
        } else if tag == ERL_SMALL_ATOM_UTF8_EXT {
            let n = self.reader.read_u8()?;
            let c = self.reader.read_exact_usize(n as usize)?;
            proof {
                assert(c@ =~= s.subrange(2, 2 + n));
                assert(final(self).remaining() =~= s.skip(2 + n));
            }
            if !check_utf8(&c) {
                return Err(Error::Utf8);
            }
            Ok(Atom::UTF8Small(c))
        } else {
            Err(Error::Io(IoKind::InvalidData))
        }
    }

    /// Read a boolean: an atom whose name decides the value.
    pub fn read_bool(&mut self) -> (r: Result<bool, Error>)
        requires
            old(self).wf(),
        ensures
            final(self).wf(),
            match bool_parse(old(self).remaining()) {
                Ok((v, k)) => r == Ok::<bool, Error>(v) && final(self).remaining() == old(
                    self,
                ).remaining().skip(k),
                Err(e) => r == Err::<bool, Error>(e),
            },
    {
        proof {
            reveal(bool_parse);
            reveal(atom_parse);
        }
        let a = self.read_atom()?;
        match a {
            Atom::Latin1(s) => Ok(eq_true_name(&s)),
            Atom::UTF8Small(s) => Ok(eq_true_name(&s)),
            Atom::UTF8(s) => Ok(eq_true_name(&s)),
        }
    }

    /// Read a string: `NIL_EXT` or a u16-prefixed `STRING_EXT`.
    pub fn read_str(&mut self) -> (r: Result<Vec<u8>, Error>)
        requires
            old(self).wf(),
        ensures
            final(self).wf(),
            match str_parse(old(self).remaining()) {
                Ok((v, k)) => r is Ok && r->Ok_0@ == v && final(self).remaining() == old(
                    self,
                ).remaining().skip(k),
                Err(e) => r == Err::<Vec<u8>, Error>(e),
            },
    {
        proof {
            reveal(str_parse);
        }
        let ghost s = old(self).remaining();
        let tag = self.reader.read_u8()?;
        if tag == ERL_NIL_EXT {
            let v: Vec<u8> = Vec::new();
            proof {
                assert(v@ =~= Seq::<u8>::empty());
            }
            Ok(v)
        } else if tag == ERL_STRING_EXT {
            let n = self.reader.read_u16()?;
            let c = self.reader.read_exact_usize(n as usize)?;
            proof {
                assert(c@ =~= s.subrange(3, 3 + n));
                assert(final(self).remaining() =~= s.skip(3 + n));
            }
            if check_utf8(&c) {
                Ok(c)
            } else {
                Err(Error::Utf8)
            }
        } else {
            Err(Error::Io(IoKind::InvalidData))
        }
    }

    /// Read a `BINARY_EXT`.
    pub fn read_binary(&mut self) -> (r: Result<Vec<u8>, Error>)
        requires
            old(self).wf(),
        ensures
            final(self).wf(),
            match binary_parse(old(self).remaining()) {
                Ok((v, k)) => r is Ok && r->Ok_0@ == v && final(self).remaining() == old(
                    self,
                ).remaining().skip(k),
                Err(e) => r == Err::<Vec<u8>, Error>(e),
            },
    {
        proof {
            reveal(binary_parse);
        }
        let ghost s = old(self).remaining();
        let tag = self.reader.read_u8()?;
        if tag != ERL_BINARY_EXT {
            return Err(Error::Io(IoKind::InvalidData));
        }
        let c = self.reader.read_exact_u32()?;
        proof {
            assert(c@ =~= s.subrange(5, 5 + u32_of(s[1], s[2], s[3], s[4])));
            assert(final(self).remaining() =~= s.skip(5 + u32_of(s[1], s[2], s[3], s[4])));
        }
        Ok(c)
    }

    /// Read a `NEW_FLOAT_EXT` as its IEEE-754 bit pattern.
    pub fn read_f64_bits(&mut self) -> (r: Result<u64, Error>)
        requires
            old(self).wf(),
        ensures
            final(self).wf(),
            match float_parse(old(self).remaining()) {
                Ok((v, k)) => r == Ok::<u64, Error>(v) && final(self).remaining() == old(
                    self,
                ).remaining().skip(k),
                Err(e) => r == Err::<u64, Error>(e),
            },
    {
        proof {
            reveal(float_parse);
        }
        let tag = self.reader.read_u8()?;
        if tag != NEW_FLOAT_EXT {
            return Err(Error::Io(IoKind::InvalidData));
        }
        let bits = self.reader.read_u64()?;
        Ok(bits)
    }

    /// Read a tuple header, returning the arity.
    pub fn read_tuple(&mut self) -> (r: Result<usize, Error>)
        requires
            old(self).wf(),
        ensures
            final(self).wf(),
            match tuple_parse(old(self).remaining()) {
                Ok((a, k)) => r is Ok && r->Ok_0 == a && final(self).remaining() == old(
                    self,
                ).remaining().skip(k),
                Err(e) => r == Err::<usize, Error>(e),
            },
    {
        let tag = self.reader.read_u8()?;
        if tag == ERL_SMALL_TUPLE_EXT {
            let a = self.reader.read_u8()?;
            Ok(a as usize)
        } else if tag == ERL_LARGE_TUPLE_EXT {
            let a = self.reader.read_u32()?;
            Ok(a as usize)
        } else {
            Err(Error::Io(IoKind::InvalidData))
        }
    }

    /// Read a list header: `None` for the empty list, `Some(n)` when
    /// `n` elements and a trailing `NIL_EXT` follow.
    pub fn read_list_header(&mut self) -> (r: Result<Option<u32>, Error>)
        requires
            old(self).wf(),
        ensures
            final(self).wf(),
            match list_parse(old(self).remaining()) {
                Ok((v, k)) => r == Ok::<Option<u32>, Error>(v) && final(self).remaining() == old(
                    self,
                ).remaining().skip(k),
                Err(e) => r == Err::<Option<u32>, Error>(e),
            },
    {
        let tag = self.reader.read_u8()?;
        if tag == ERL_NIL_EXT {
            Ok(None)
        } else if tag == ERL_LIST_EXT {
            let n = self.reader.read_u32()?;
            Ok(Some(n))
        } else {
            Err(Error::Io(IoKind::InvalidData))
        }
    }

    /// Read a map header, returning the number of key-value pairs.
    pub fn read_map_header(&mut self) -> (r: Result<u32, Error>)
        requires
            old(self).wf(),
        ensures
            final(self).wf(),
            match map_parse(old(self).remaining()) {
                Ok((v, k)) => r == Ok::<u32, Error>(v) && final(self).remaining() == old(
                    self,
                ).remaining().skip(k),
                Err(e) => r == Err::<u32, Error>(e),
            },
    {
        let tag = self.reader.read_u8()?;
        if tag != ERL_MAP_EXT {
            return Err(Error::Io(IoKind::InvalidData));
        }
        let n = self.reader.read_u32()?;
        Ok(n)
    }
}


// --- Pids, ports, refs, traces, control messages ------------------------

/// Parse a pid. The legacy `PID_EXT` form masks its fields; the
/// `NEW_PID_EXT` form carries them in full width.
#[verifier::opaque]
pub open spec fn pid_parse(s: Seq<u8>) -> Result<(PidV, int), Error> {
    if s.len() < 1 {
        Err(Error::Io(IoKind::UnexpectedEof))
    } else if s[0] == ERL_PID_EXT {
        match atom_parse(s.skip(1)) {
            Ok((a, ka)) => {
                let t = s.skip(1 + ka);
                if t.len() < 9 {
                    Err(Error::Io(IoKind::UnexpectedEof))
                } else {
                    Ok(
                        (
                            PidV {
                                node: a,
                                num: (u32_of(t[0], t[1], t[2], t[3]) % 0x8000) as u32,
                                serial: (u32_of(t[4], t[5], t[6], t[7]) % 0x2000) as u32,
                                creation: (t[8] % 4) as u32,
                            },
                            1 + ka + 9,
                        ),
                    )
                }
            }
            Err(e) => Err(e),
        }
    } else if s[0] == ERL_NEW_PID_EXT {
        match atom_parse(s.skip(1)) {
            Ok((a, ka)) => {
                let t = s.skip(1 + ka);
                if t.len() < 12 {
                    Err(Error::Io(IoKind::UnexpectedEof))
                } else {
                    Ok(
                        (
                            PidV {
                                node: a,
                                num: u32_of(t[0], t[1], t[2], t[3]) as u32,
                                serial: u32_of(t[4], t[5], t[6], t[7]) as u32,
                                creation: u32_of(t[8], t[9], t[10], t[11]) as u32,
                            },
                            1 + ka + 12,
                        ),
                    )
                }
            }
            Err(e) => Err(e),
        }
    } else {
        Err(Error::Io(IoKind::InvalidData))
    }
}

/// Parse a port. The legacy `PORT_EXT` form masks its fields and maps
/// to `NewPort`; `NEW_PORT_EXT` and `V4_PORT_EXT` carry full widths.
#[verifier::opaque]
pub open spec fn port_parse(s: Seq<u8>) -> Result<(PortV, int), Error> {
    if s.len() < 1 {
        Err(Error::Io(IoKind::UnexpectedEof))
    } else if s[0] == ERL_PORT_EXT {
        match atom_parse(s.skip(1)) {
            Ok((a, ka)) => {
                let t = s.skip(1 + ka);
                if t.len() < 5 {
                    Err(Error::Io(IoKind::UnexpectedEof))
                } else {
                    Ok(
                        (
                            PortV::NewPort {
                                node: a,
                                id: (u32_of(t[0], t[1], t[2], t[3]) % 0x10000000) as u32,
                                creation: (t[4] % 4) as u32,
                            },
                            1 + ka + 5,
                        ),
                    )
                }
            }
            Err(e) => Err(e),
        }
    } else if s[0] == ERL_NEW_PORT_EXT {
        match atom_parse(s.skip(1)) {
            Ok((a, ka)) => {
                let t = s.skip(1 + ka);
                if t.len() < 8 {
                    Err(Error::Io(IoKind::UnexpectedEof))
                } else {
                    Ok(
                        (
                            PortV::NewPort {
                                node: a,
                                id: u32_of(t[0], t[1], t[2], t[3]) as u32,
                                creation: u32_of(t[4], t[5], t[6], t[7]) as u32,
                            },
                            1 + ka + 8,
                        ),
                    )
                }
            }
            Err(e) => Err(e),
        }
    } else if s[0] == ERL_V4_PORT_EXT {
        match atom_parse(s.skip(1)) {
            Ok((a, ka)) => {
                let t = s.skip(1 + ka);
                if t.len() < 12 {
                    Err(Error::Io(IoKind::UnexpectedEof))
                } else {
                    Ok(
                        (
                            PortV::V4Port {
                                node: a,
                                id: u64_of(
                                    t[0],
                                    t[1],
                                    t[2],
                                    t[3],
                                    t[4],
                                    t[5],
                                    t[6],
                                    t[7],
                                ) as u64,
                                creation: u32_of(t[8], t[9], t[10], t[11]) as u32,
                            },
                            1 + ka + 12,
                        ),
                    )
                }
            }
            Err(e) => Err(e),
        }
    } else {
        Err(Error::Io(IoKind::InvalidData))
    }
}

/// The first `k` big-endian words at the head of the stream.
pub open spec fn take_words(t: Seq<u8>, k: nat) -> Seq<u32>
    decreases k,
{
    if k == 0 {
        seq![]
    } else {
        seq![u32_of(t[0], t[1], t[2], t[3]) as u32] + take_words(t.skip(4), (k - 1) as nat)
    }
}

/// Reading one more word appends it to the collected words.
pub proof fn lemma_take_words_snoc(t: Seq<u8>, k: nat)
    requires
        t.len() >= 4 * (k + 1),
    ensures
        take_words(t, (k + 1) as nat) == take_words(t, k).push(
            u32_of(t[4 * k as int], t[4 * k as int + 1], t[4 * k as int + 2], t[4 * k as int + 3]) as u32,
        ),
    decreases k,
{
    if k == 0 {
        assert(take_words(t.skip(4), 0) =~= Seq::<u32>::empty());
        assert(take_words(t, 1) =~= take_words(t, 0).push(
            u32_of(t[0], t[1], t[2], t[3]) as u32,
        ));
    } else {
        lemma_take_words_snoc(t.skip(4), (k - 1) as nat);
        assert(t.skip(4)[4 * (k - 1) as int] == t[4 * k as int]);
        assert(t.skip(4)[4 * (k - 1) as int + 1] == t[4 * k as int + 1]);
        assert(t.skip(4)[4 * (k - 1) as int + 2] == t[4 * k as int + 2]);
        assert(t.skip(4)[4 * (k - 1) as int + 3] == t[4 * k as int + 3]);
        assert(take_words(t, (k + 1) as nat) =~= take_words(t, k).push(
            u32_of(t[4 * k as int], t[4 * k as int + 1], t[4 * k as int + 2], t[4 * k as int + 3]) as u32,
        ));
    }
}

/// Parse a reference. The legacy `NEW_REFERENCE_EXT` form carries a
/// one-byte creation and at most three words; `NEWER_REFERENCE_EXT`
/// carries a four-byte creation and up to five words. A word count
/// outside those bounds is rejected.
#[verifier::opaque]
pub open spec fn ref_parse(s: Seq<u8>) -> Result<(RefV, int), Error> {
    if s.len() < 1 {
        Err(Error::Io(IoKind::UnexpectedEof))
    } else if s[0] != ERL_NEW_REFERENCE_EXT && s[0] != ERL_NEWER_REFERENCE_EXT {
        Err(Error::Io(IoKind::InvalidData))
    } else if s.len() < 3 {
        Err(Error::Io(IoKind::UnexpectedEof))
    } else {
        let legacy = s[0] == ERL_NEW_REFERENCE_EXT;
        let l = sign16(u16_of(s[1], s[2]));
        if l < 0 || l > (if legacy { 3int } else { 5int }) {
            Err(Error::Io(IoKind::InvalidData))
        } else {
            match atom_parse(s.skip(3)) {
                Ok((a, ka)) => {
                    let t = s.skip(3 + ka);
                    let ch = if legacy { 1int } else { 4int };
                    if t.len() < ch + 4 * l {
                        Err(Error::Io(IoKind::UnexpectedEof))
                    } else {
                        let c = if legacy {
                            (t[0] % 4) as u32
                        } else {
                            u32_of(t[0], t[1], t[2], t[3]) as u32
                        };
                        let ws = take_words(t.skip(ch), l as nat);
                        Ok(
                            (
                                RefV {
                                    len: l as i16,
                                    node: a,
                                    creation: c,
                                    n: if l == 0 {
                                        None
                                    } else {
                                        Some(ws)
                                    },
                                },
                                3 + ka + ch + 4 * l,
                            ),
                        )
                    }
                }
                Err(e) => Err(e),
            }
        }
    }
}

/// Parse the five fields of a trace token: flags, label, serial,
/// from, prev (the tuple header already consumed).
#[verifier::opaque]
pub open spec fn trace_fields_parse(s: Seq<u8>) -> Result<(TraceV, int), Error> {
    match parse_sint(s, i64::MAX as int) {
        Ok((v0, k1)) => match parse_sint(s.skip(k1), i64::MAX as int) {
            Ok((v1, k2)) => match parse_sint(s.skip(k1 + k2), i64::MAX as int) {
                Ok((v2, k3)) => match pid_parse(s.skip(k1 + k2 + k3)) {
                    Ok((p, k4)) => match parse_sint(s.skip(k1 + k2 + k3 + k4), i64::MAX as int) {
                        Ok((v4, k5)) => Ok(
                            (
                                TraceV(v0 as i64, v1 as i64, v2 as i64, p, v4 as i64),
                                k1 + k2 + k3 + k4 + k5,
                            ),
                        ),
                        Err(e) => Err(e),
                    },
                    Err(e) => Err(e),
                },
                Err(e) => Err(e),
            },
            Err(e) => Err(e),
        },
        Err(e) => Err(e),
    }
}

/// Parse a trace token: a tuple of arity five holding flags, label,
/// serial, from, prev.
#[verifier::opaque]
pub open spec fn trace_parse(s: Seq<u8>) -> Result<(TraceV, int), Error> {
    match tuple_parse(s) {
        Ok((arity, k0)) => if arity != 5 {
            Err(Error::Io(IoKind::InvalidData))
        } else {
            match trace_fields_parse(s.skip(k0)) {
                Ok((t, kf)) => Ok((t, k0 + kf)),
                Err(e) => Err(e),
            }
        },
        Err(e) => Err(e),
    }
}

/// Parse the fields of a `Send` control message.
#[verifier::opaque]
pub open spec fn send_fields_parse(s: Seq<u8>) -> Result<(MsgV, int), Error> {
    match atom_parse(s) {
        Ok((cookie, k1)) => match pid_parse(s.skip(k1)) {
            Ok((to, k2)) => Ok((MsgV::Send { cookie, to }, k1 + k2)),
            Err(e) => Err(e),
        },
        Err(e) => Err(e),
    }
}

/// Parse the fields of a `SendTT` control message.
#[verifier::opaque]
pub open spec fn send_tt_fields_parse(s: Seq<u8>) -> Result<(MsgV, int), Error> {
    match atom_parse(s) {
        Ok((cookie, k1)) => match pid_parse(s.skip(k1)) {
            Ok((to, k2)) => match trace_parse(s.skip(k1 + k2)) {
                Ok((token, k3)) => Ok((MsgV::SendTT { cookie, to, token }, k1 + k2 + k3)),
                Err(e) => Err(e),
            },
            Err(e) => Err(e),
        },
        Err(e) => Err(e),
    }
}

/// Parse the fields of a `RegSend` control message.
#[verifier::opaque]
pub open spec fn reg_send_fields_parse(s: Seq<u8>) -> Result<(MsgV, int), Error> {
    match pid_parse(s) {
        Ok((from, k1)) => match atom_parse(s.skip(k1)) {
            Ok((cookie, k2)) => match atom_parse(s.skip(k1 + k2)) {
                Ok((toname, k3)) => Ok((MsgV::RegSend { from, cookie, toname }, k1 + k2 + k3)),
                Err(e) => Err(e),
            },
            Err(e) => Err(e),
        },
        Err(e) => Err(e),
    }
}

/// Parse the fields of a `RegSendTT` control message.
#[verifier::opaque]
pub open spec fn reg_send_tt_fields_parse(s: Seq<u8>) -> Result<(MsgV, int), Error> {
    match pid_parse(s) {
        Ok((from, k1)) => match atom_parse(s.skip(k1)) {
            Ok((cookie, k2)) => match atom_parse(s.skip(k1 + k2)) {
                Ok((toname, k3)) => match trace_parse(s.skip(k1 + k2 + k3)) {
                    Ok((token, k4)) => Ok(
                        (MsgV::RegSendTT { from, cookie, toname, token }, k1 + k2 + k3 + k4),
                    ),
                    Err(e) => Err(e),
                },
                Err(e) => Err(e),
            },
            Err(e) => Err(e),
        },
        Err(e) => Err(e),
    }
}

/// Parse the fields of an `Exit` control message.
#[verifier::opaque]
pub open spec fn exit_fields_parse(s: Seq<u8>) -> Result<(MsgV, int), Error> {
    match pid_parse(s) {
        Ok((from, k1)) => match pid_parse(s.skip(k1)) {
            Ok((to, k2)) => match str_parse(s.skip(k1 + k2)) {
                Ok((reason, k3)) => Ok((MsgV::Exit { from, to, reason }, k1 + k2 + k3)),
                Err(e) => Err(e),
            },
            Err(e) => Err(e),
        },
        Err(e) => Err(e),
    }
}

/// Parse the fields of an `ExitTT` control message.
#[verifier::opaque]
pub open spec fn exit_tt_fields_parse(s: Seq<u8>) -> Result<(MsgV, int), Error> {
    match pid_parse(s) {
        Ok((from, k1)) => match pid_parse(s.skip(k1)) {
            Ok((to, k2)) => match trace_parse(s.skip(k1 + k2)) {
                Ok((token, k3)) => match str_parse(s.skip(k1 + k2 + k3)) {
                    Ok((reason, k4)) => Ok(
                        (MsgV::ExitTT { from, to, token, reason }, k1 + k2 + k3 + k4),
                    ),
                    Err(e) => Err(e),
                },
                Err(e) => Err(e),
            },
            Err(e) => Err(e),
        },
        Err(e) => Err(e),
    }
}

/// Parse a control message: a small tuple whose first element is a
/// small-integer opcode, whose arity must match the opcode, followed
/// by the fields in declaration order.
#[verifier::opaque]
pub open spec fn msg_parse(s: Seq<u8>) -> Result<(MsgV, int), Error> {
    if s.len() < 1 {
        Err(Error::Io(IoKind::UnexpectedEof))
    } else if s[0] != ERL_SMALL_TUPLE_EXT {
        Err(Error::Io(IoKind::InvalidData))
    } else if s.len() < 2 {
        Err(Error::Io(IoKind::UnexpectedEof))
    } else if s.len() < 3 {
        Err(Error::Io(IoKind::UnexpectedEof))
    } else if s[2] != ERL_SMALL_INTEGER_EXT {
        Err(Error::Io(IoKind::InvalidData))
    } else if s.len() < 4 {
        Err(Error::Io(IoKind::UnexpectedEof))
    } else {
        let arity = s[1];
        let op = s[3];
        let rest = s.skip(4);
        let fields: Result<(MsgV, int), Error> = if op == ERL_SEND && arity == 3 {
            send_fields_parse(rest)
        } else if op == ERL_SEND_TT && arity == 4 {
            send_tt_fields_parse(rest)
        } else if op == ERL_REG_SEND && arity == 4 {
            reg_send_fields_parse(rest)
        } else if op == ERL_REG_SEND_TT && arity == 5 {
            reg_send_tt_fields_parse(rest)
        } else if op == ERL_EXIT && arity == 4 {
            exit_fields_parse(rest)
        } else if op == ERL_EXIT_TT && arity == 5 {
            exit_tt_fields_parse(rest)
        } else {
            Err(Error::Io(IoKind::InvalidData))
        };
        match fields {
            Ok((m, k)) => Ok((m, 4 + k)),
            Err(e) => Err(e),
        }
    }
}


// --- Consumed-length bounds ---------------------------------------------
//
// The composite parse functions are opaque; these lemmas expose the
// one fact their callers need without unfolding them: a successful
// parse consumes between zero bytes and the whole stream.

pub proof fn lemma_parse_uint_len(s: Seq<u8>, max: int)
    ensures
        parse_uint(s, max) is Ok ==> 0 <= parse_uint(s, max)->Ok_0.1 <= s.len(),
{
    reveal(parse_uint);
}

pub proof fn lemma_parse_sint_len(s: Seq<u8>, max: int)
    ensures
        parse_sint(s, max) is Ok ==> 0 <= parse_sint(s, max)->Ok_0.1 <= s.len(),
{
    reveal(parse_sint);
}

pub proof fn lemma_atom_parse_len(s: Seq<u8>)
    ensures
        atom_parse(s) is Ok ==> 0 <= atom_parse(s)->Ok_0.1 <= s.len(),
{
    reveal(atom_parse);
}

pub proof fn lemma_str_parse_len(s: Seq<u8>)
    ensures
        str_parse(s) is Ok ==> 0 <= str_parse(s)->Ok_0.1 <= s.len(),
{
    reveal(str_parse);
}

pub proof fn lemma_pid_parse_len(s: Seq<u8>)
    ensures
        pid_parse(s) is Ok ==> 0 <= pid_parse(s)->Ok_0.1 <= s.len(),
{
    reveal(pid_parse);
    lemma_atom_parse_len(s.skip(1));
}

pub proof fn lemma_port_parse_len(s: Seq<u8>)
    ensures
        port_parse(s) is Ok ==> 0 <= port_parse(s)->Ok_0.1 <= s.len(),
{
    reveal(port_parse);
    lemma_atom_parse_len(s.skip(1));
}

pub proof fn lemma_ref_parse_len(s: Seq<u8>)
    ensures
        ref_parse(s) is Ok ==> 0 <= ref_parse(s)->Ok_0.1 <= s.len(),
{
    reveal(ref_parse);
    lemma_atom_parse_len(s.skip(3));
}

pub proof fn lemma_trace_fields_parse_len(s: Seq<u8>)
    ensures
        trace_fields_parse(s) is Ok ==> 0 <= trace_fields_parse(s)->Ok_0.1 <= s.len(),
{
    reveal(trace_fields_parse);
    lemma_parse_sint_len(s, i64::MAX as int);
    if parse_sint(s, i64::MAX as int) is Ok {
        let k1 = parse_sint(s, i64::MAX as int)->Ok_0.1;
        lemma_parse_sint_len(s.skip(k1), i64::MAX as int);
        if parse_sint(s.skip(k1), i64::MAX as int) is Ok {
            let k2 = parse_sint(s.skip(k1), i64::MAX as int)->Ok_0.1;
            lemma_parse_sint_len(s.skip(k1 + k2), i64::MAX as int);
            if parse_sint(s.skip(k1 + k2), i64::MAX as int) is Ok {
                let k3 = parse_sint(s.skip(k1 + k2), i64::MAX as int)->Ok_0.1;
                lemma_pid_parse_len(s.skip(k1 + k2 + k3));
                if pid_parse(s.skip(k1 + k2 + k3)) is Ok {
                    let k4 = pid_parse(s.skip(k1 + k2 + k3))->Ok_0.1;
                    lemma_parse_sint_len(s.skip(k1 + k2 + k3 + k4), i64::MAX as int);
                }
            }
        }
    }
}

pub proof fn lemma_trace_parse_len(s: Seq<u8>)
    ensures
        trace_parse(s) is Ok ==> 0 <= trace_parse(s)->Ok_0.1 <= s.len(),
{
    reveal(trace_parse);
    if tuple_parse(s) is Ok {
        lemma_trace_fields_parse_len(s.skip(tuple_parse(s)->Ok_0.1));
    }
}

pub proof fn lemma_send_fields_parse_len(s: Seq<u8>)
    ensures
        send_fields_parse(s) is Ok ==> 0 <= send_fields_parse(s)->Ok_0.1 <= s.len(),
{
    reveal(send_fields_parse);
    lemma_atom_parse_len(s);
    if atom_parse(s) is Ok {
        lemma_pid_parse_len(s.skip(atom_parse(s)->Ok_0.1));
    }
}

pub proof fn lemma_send_tt_fields_parse_len(s: Seq<u8>)
    ensures
        send_tt_fields_parse(s) is Ok ==> 0 <= send_tt_fields_parse(s)->Ok_0.1 <= s.len(),
{
    reveal(send_tt_fields_parse);
    lemma_atom_parse_len(s);
    if atom_parse(s) is Ok {
        let k1 = atom_parse(s)->Ok_0.1;
        lemma_pid_parse_len(s.skip(k1));
        if pid_parse(s.skip(k1)) is Ok {
            let k2 = pid_parse(s.skip(k1))->Ok_0.1;
            lemma_trace_parse_len(s.skip(k1 + k2));
        }
    }
}

pub proof fn lemma_reg_send_fields_parse_len(s: Seq<u8>)
    ensures
        reg_send_fields_parse(s) is Ok ==> 0 <= reg_send_fields_parse(s)->Ok_0.1 <= s.len(),
{
    reveal(reg_send_fields_parse);
    lemma_pid_parse_len(s);
    if pid_parse(s) is Ok {
        let k1 = pid_parse(s)->Ok_0.1;
        lemma_atom_parse_len(s.skip(k1));
        if atom_parse(s.skip(k1)) is Ok {
            let k2 = atom_parse(s.skip(k1))->Ok_0.1;
            lemma_atom_parse_len(s.skip(k1 + k2));
        }
    }
}

pub proof fn lemma_reg_send_tt_fields_parse_len(s: Seq<u8>)
    ensures
        reg_send_tt_fields_parse(s) is Ok ==> 0 <= reg_send_tt_fields_parse(s)->Ok_0.1
            <= s.len(),
{
    reveal(reg_send_tt_fields_parse);
    lemma_pid_parse_len(s);
    if pid_parse(s) is Ok {
        let k1 = pid_parse(s)->Ok_0.1;
        lemma_atom_parse_len(s.skip(k1));
        if atom_parse(s.skip(k1)) is Ok {
            let k2 = atom_parse(s.skip(k1))->Ok_0.1;
            lemma_atom_parse_len(s.skip(k1 + k2));
            if atom_parse(s.skip(k1 + k2)) is Ok {
                let k3 = atom_parse(s.skip(k1 + k2))->Ok_0.1;
                lemma_trace_parse_len(s.skip(k1 + k2 + k3));
            }
        }
    }
}

pub proof fn lemma_exit_fields_parse_len(s: Seq<u8>)
    ensures
        exit_fields_parse(s) is Ok ==> 0 <= exit_fields_parse(s)->Ok_0.1 <= s.len(),
{
    reveal(exit_fields_parse);
    lemma_pid_parse_len(s);
    if pid_parse(s) is Ok {
        let k1 = pid_parse(s)->Ok_0.1;
        lemma_pid_parse_len(s.skip(k1));
        if pid_parse(s.skip(k1)) is Ok {
            let k2 = pid_parse(s.skip(k1))->Ok_0.1;
            lemma_str_parse_len(s.skip(k1 + k2));
        }
    }
}

pub proof fn lemma_exit_tt_fields_parse_len(s: Seq<u8>)
    ensures
        exit_tt_fields_parse(s) is Ok ==> 0 <= exit_tt_fields_parse(s)->Ok_0.1 <= s.len(),
{
    reveal(exit_tt_fields_parse);
    lemma_pid_parse_len(s);
    if pid_parse(s) is Ok {
        let k1 = pid_parse(s)->Ok_0.1;
        lemma_pid_parse_len(s.skip(k1));
        if pid_parse(s.skip(k1)) is Ok {
            let k2 = pid_parse(s.skip(k1))->Ok_0.1;
            lemma_trace_parse_len(s.skip(k1 + k2));
            if trace_parse(s.skip(k1 + k2)) is Ok {
                let k3 = trace_parse(s.skip(k1 + k2))->Ok_0.1;
                lemma_str_parse_len(s.skip(k1 + k2 + k3));
            }
        }
    }
}

pub proof fn lemma_msg_parse_len(s: Seq<u8>)
    ensures
        msg_parse(s) is Ok ==> 0 <= msg_parse(s)->Ok_0.1 <= s.len(),
{
    reveal(msg_parse);
    if s.len() >= 4 {
        lemma_send_fields_parse_len(s.skip(4));
        lemma_send_tt_fields_parse_len(s.skip(4));
        lemma_reg_send_fields_parse_len(s.skip(4));
        lemma_reg_send_tt_fields_parse_len(s.skip(4));
        lemma_exit_fields_parse_len(s.skip(4));
        lemma_exit_tt_fields_parse_len(s.skip(4));
    }
}

impl Deserializer {
    /// Read a pid under the legacy or the new tag.
    pub fn read_pid(&mut self) -> (r: Result<Pid, Error>)
        requires
            old(self).wf(),
        ensures
            final(self).wf(),
            match pid_parse(old(self).remaining()) {
                Ok((p, k)) => r is Ok && r->Ok_0@ == p && final(self).remaining() == old(
                    self,
                ).remaining().skip(k),
                Err(e) => r == Err::<Pid, Error>(e),
            },
    {
        proof {
            reveal(pid_parse);
        }
        let ghost s = old(self).remaining();
        let tag = self.reader.read_u8()?;
        if tag == ERL_PID_EXT {
            let node = self.read_atom()?;
            let ghost ka = atom_parse(s.skip(1))->Ok_0.1;
            proof {
                lemma_atom_parse_len(s.skip(1));
                assert(self.remaining() =~= s.skip(1 + ka));
            }
            let num = self.reader.read_u32()?;
            let serial = self.reader.read_u32()?;
            let creation = self.reader.read_u8()?;
            proof {
                assert(final(self).remaining() =~= s.skip(1 + ka + 9));
            }
            Ok(Pid { node, num: num % 0x8000, serial: serial % 0x2000, creation: (creation % 4) as u32 })
        } else if tag == ERL_NEW_PID_EXT {
            let node = self.read_atom()?;
            let ghost ka = atom_parse(s.skip(1))->Ok_0.1;
            proof {
                lemma_atom_parse_len(s.skip(1));
                assert(self.remaining() =~= s.skip(1 + ka));
            }
            let num = self.reader.read_u32()?;
            let serial = self.reader.read_u32()?;
            let creation = self.reader.read_u32()?;
            proof {
                assert(final(self).remaining() =~= s.skip(1 + ka + 12));
            }
            Ok(Pid { node, num, serial, creation })
        } else {
            Err(Error::Io(IoKind::InvalidData))
        }
    }

    /// Read a port under the legacy, new, or v4 tag.
    pub fn read_port(&mut self) -> (r: Result<Port, Error>)
        requires
            old(self).wf(),
        ensures
            final(self).wf(),
            match port_parse(old(self).remaining()) {
                Ok((p, k)) => r is Ok && r->Ok_0@ == p && final(self).remaining() == old(
                    self,
                ).remaining().skip(k),
                Err(e) => r == Err::<Port, Error>(e),
            },
    {
        proof {
            reveal(port_parse);
        }
        let ghost s = old(self).remaining();
        let tag = self.reader.read_u8()?;
        if tag == ERL_PORT_EXT {
            let node = self.read_atom()?;
            let ghost ka = atom_parse(s.skip(1))->Ok_0.1;
            proof {
                lemma_atom_parse_len(s.skip(1));
                assert(self.remaining() =~= s.skip(1 + ka));
            }
            let id = self.reader.read_u32()?;
            let creation = self.reader.read_u8()?;
            proof {
                assert(final(self).remaining() =~= s.skip(1 + ka + 5));
            }
            Ok(Port::NewPort { node, id: id % 0x10000000, creation: (creation % 4) as u32 })
        } else if tag == ERL_NEW_PORT_EXT {
            let node = self.read_atom()?;
            let ghost ka = atom_parse(s.skip(1))->Ok_0.1;
            proof {
                lemma_atom_parse_len(s.skip(1));
                assert(self.remaining() =~= s.skip(1 + ka));
            }
            let id = self.reader.read_u32()?;
            let creation = self.reader.read_u32()?;
            proof {
                assert(final(self).remaining() =~= s.skip(1 + ka + 8));
            }
            Ok(Port::NewPort { node, id, creation })
        } else if tag == ERL_V4_PORT_EXT {
            let node = self.read_atom()?;
            let ghost ka = atom_parse(s.skip(1))->Ok_0.1;
            proof {
                lemma_atom_parse_len(s.skip(1));
                assert(self.remaining() =~= s.skip(1 + ka));
            }
            let id = self.reader.read_u64()?;
            let creation = self.reader.read_u32()?;
            proof {
                assert(final(self).remaining() =~= s.skip(1 + ka + 12));
            }
            Ok(Port::V4Port { node, id, creation })
        } else {
            Err(Error::Io(IoKind::InvalidData))
        }
    }

    /// Read a reference under the legacy or the newer tag.
    pub fn read_ref(&mut self) -> (r: Result<Ref, Error>)
        requires
            old(self).wf(),
        ensures
            final(self).wf(),
            match ref_parse(old(self).remaining()) {
                Ok((v, k)) => r is Ok && r->Ok_0@ == v && final(self).remaining() == old(
                    self,
                ).remaining().skip(k),
                Err(e) => r == Err::<Ref, Error>(e),
            },
    {
        proof {
            reveal(ref_parse);
        }
        let ghost s = old(self).remaining();
        let tag = self.reader.read_u8()?;
        if tag != ERL_NEW_REFERENCE_EXT && tag != ERL_NEWER_REFERENCE_EXT {
            return Err(Error::Io(IoKind::InvalidData));
        }
        let legacy = tag == ERL_NEW_REFERENCE_EXT;
        let l = self.reader.read_i16()?;
        if l < 0 || l > (if legacy { 3 } else { 5 }) {
            return Err(Error::Io(IoKind::InvalidData));
        }
        proof {
            assert(self.remaining() =~= s.skip(3));
        }
        let node = self.read_atom()?;
        let ghost ka = atom_parse(s.skip(3))->Ok_0.1;
        proof {
            lemma_atom_parse_len(s.skip(3));
            assert(self.remaining() =~= s.skip(3 + ka));
        }
        let ghost t = s.skip(3 + ka);
        let need: usize = if legacy {
            1 + 4 * (l as usize)
        } else {
            4 + 4 * (l as usize)
        };
        if self.len() < need {
            return Err(Error::Io(IoKind::UnexpectedEof));
        }
        let ghost ch: int = if legacy { 1int } else { 4int };
        let creation: u32;
        if legacy {
            let c = match self.reader.read_u8() {
                Ok(c) => c,
                Err(_) => {
                    proof {
                        assert(false);
                    }
                    return Err(Error::Io(IoKind::UnexpectedEof));
                }
            };
            creation = (c % 4) as u32;
        } else {
            creation = match self.reader.read_u32() {
                Ok(c) => c,
                Err(_) => {
                    proof {
                        assert(false);
                    }
                    return Err(Error::Io(IoKind::UnexpectedEof));
                }
            };
        }
        proof {
            assert(self.remaining() =~= t.skip(ch));
        }
        let ghost tw = t.skip(ch);
        let mut ws: Vec<u32> = Vec::new();
        let mut i: usize = 0;
        while i < l as usize
            invariant
                self.wf(),
                i <= l as usize,
                0 <= l <= 5,
                tw.len() >= 4 * (l as int),
                self.remaining() == tw.skip(4 * i),
                ws@ == take_words(tw, i as nat),
                ws@.len() == i,
            decreases l as int - i,
        {
            let w = match self.reader.read_u32() {
                Ok(w) => w,
                Err(_) => {
                    proof {
                        assert(tw.skip(4 * i).len() >= 4);
                        assert(false);
                    }
                    return Err(Error::Io(IoKind::UnexpectedEof));
                }
            };
            proof {
                lemma_take_words_snoc(tw, i as nat);
                assert(tw.skip(4 * i)[0] == tw[4 * i as int]);
                assert(tw.skip(4 * i)[1] == tw[4 * i as int + 1]);
                assert(tw.skip(4 * i)[2] == tw[4 * i as int + 2]);
                assert(tw.skip(4 * i)[3] == tw[4 * i as int + 3]);
                assert(tw.skip(4 * i).skip(4) =~= tw.skip(4 * (i + 1)));
            }
            ws.push(w);
            i = i + 1;
        }
        proof {
            assert(final(self).remaining() =~= s.skip(3 + ka + ch + 4 * (l as int)));
        }
        if l == 0 {
            Ok(Ref { len: l, node, creation, n: None })
        } else {
            Ok(Ref { len: l, node, creation, n: Some(ws) })
        }
    }

    /// Read the five fields of a trace token.
    fn read_trace_fields(&mut self) -> (r: Result<Trace, Error>)
        requires
            old(self).wf(),
        ensures
            final(self).wf(),
            match trace_fields_parse(old(self).remaining()) {
                Ok((t, k)) => r is Ok && r->Ok_0@ == t && final(self).remaining() == old(
                    self,
                ).remaining().skip(k),
                Err(e) => r == Err::<Trace, Error>(e),
            },
    {
        proof {
            reveal(trace_fields_parse);
        }
        let ghost s = old(self).remaining();
        let v0 = self.read_i64()?;
        let ghost k1 = parse_sint(s, i64::MAX as int)->Ok_0.1;
        proof {
            lemma_parse_sint_len(s, i64::MAX as int);
        }
        let v1 = self.read_i64()?;
        let ghost k2 = parse_sint(s.skip(k1), i64::MAX as int)->Ok_0.1;
        proof {
            lemma_parse_sint_len(s.skip(k1), i64::MAX as int);
            assert(self.remaining() =~= s.skip(k1 + k2));
        }
        let v2 = self.read_i64()?;
        let ghost k3 = parse_sint(s.skip(k1 + k2), i64::MAX as int)->Ok_0.1;
        proof {
            lemma_parse_sint_len(s.skip(k1 + k2), i64::MAX as int);
            assert(self.remaining() =~= s.skip(k1 + k2 + k3));
        }
        let from = self.read_pid()?;
        let ghost k4 = pid_parse(s.skip(k1 + k2 + k3))->Ok_0.1;
        proof {
            lemma_pid_parse_len(s.skip(k1 + k2 + k3));
            assert(self.remaining() =~= s.skip(k1 + k2 + k3 + k4));
        }
        let v4 = self.read_i64()?;
        proof {
            let k5 = parse_sint(s.skip(k1 + k2 + k3 + k4), i64::MAX as int)->Ok_0.1;
            lemma_parse_sint_len(s.skip(k1 + k2 + k3 + k4), i64::MAX as int);
            assert(final(self).remaining() =~= s.skip(k1 + k2 + k3 + k4 + k5));
        }
        Ok(Trace(v0, v1, v2, from, v4))
    }

    /// Read a trace token.
    pub fn read_trace(&mut self) -> (r: Result<Trace, Error>)
        requires
            old(self).wf(),
        ensures
            final(self).wf(),
            match trace_parse(old(self).remaining()) {
                Ok((t, k)) => r is Ok && r->Ok_0@ == t && final(self).remaining() == old(
                    self,
                ).remaining().skip(k),
                Err(e) => r == Err::<Trace, Error>(e),
            },
    {
        proof {
            reveal(trace_parse);
        }
        let ghost s = old(self).remaining();
        let arity = self.read_tuple()?;
        if arity != 5 {
            return Err(Error::Io(IoKind::InvalidData));
        }
        let ghost k0 = tuple_parse(s)->Ok_0.1;
        let t = self.read_trace_fields()?;
        proof {
            let kf = trace_fields_parse(s.skip(k0))->Ok_0.1;
            lemma_trace_fields_parse_len(s.skip(k0));
            assert(final(self).remaining() =~= s.skip(k0 + kf));
        }
        Ok(t)
    }

    fn read_send_fields(&mut self) -> (r: Result<Msg, Error>)
        requires
            old(self).wf(),
        ensures
            final(self).wf(),
            match send_fields_parse(old(self).remaining()) {
                Ok((m, k)) => r is Ok && r->Ok_0@ == m && final(self).remaining() == old(
                    self,
                ).remaining().skip(k),
                Err(e) => r == Err::<Msg, Error>(e),
            },
    {
        proof {
            reveal(send_fields_parse);
        }
        let ghost s = old(self).remaining();
        let cookie = self.read_atom()?;
        let ghost k1 = atom_parse(s)->Ok_0.1;
        proof {
            lemma_atom_parse_len(s);
        }
        let to = self.read_pid()?;
        proof {
            let k2 = pid_parse(s.skip(k1))->Ok_0.1;
            lemma_pid_parse_len(s.skip(k1));
            assert(final(self).remaining() =~= s.skip(k1 + k2));
        }
        Ok(Msg::Send { cookie, to })
    }

    fn read_send_tt_fields(&mut self) -> (r: Result<Msg, Error>)
        requires
            old(self).wf(),
        ensures
            final(self).wf(),
            match send_tt_fields_parse(old(self).remaining()) {
                Ok((m, k)) => r is Ok && r->Ok_0@ == m && final(self).remaining() == old(
                    self,
                ).remaining().skip(k),
                Err(e) => r == Err::<Msg, Error>(e),
            },
    {
        proof {
            reveal(send_tt_fields_parse);
        }
        let ghost s = old(self).remaining();
        let cookie = self.read_atom()?;
        let ghost k1 = atom_parse(s)->Ok_0.1;
        proof {
            lemma_atom_parse_len(s);
        }
        let to = self.read_pid()?;
        let ghost k2 = pid_parse(s.skip(k1))->Ok_0.1;
        proof {
            lemma_pid_parse_len(s.skip(k1));
            assert(self.remaining() =~= s.skip(k1 + k2));
        }
        let token = self.read_trace()?;
        proof {
            let k3 = trace_parse(s.skip(k1 + k2))->Ok_0.1;
            lemma_trace_parse_len(s.skip(k1 + k2));
            assert(final(self).remaining() =~= s.skip(k1 + k2 + k3));
        }
        Ok(Msg::SendTT { cookie, to, token })
    }

    fn read_reg_send_fields(&mut self) -> (r: Result<Msg, Error>)
        requires
            old(self).wf(),
        ensures
            final(self).wf(),
            match reg_send_fields_parse(old(self).remaining()) {
                Ok((m, k)) => r is Ok && r->Ok_0@ == m && final(self).remaining() == old(
                    self,
                ).remaining().skip(k),
                Err(e) => r == Err::<Msg, Error>(e),
            },
    {
        proof {
            reveal(reg_send_fields_parse);
        }
        let ghost s = old(self).remaining();
        let from = self.read_pid()?;
        let ghost k1 = pid_parse(s)->Ok_0.1;
        proof {
            lemma_pid_parse_len(s);
        }
        let cookie = self.read_atom()?;
        let ghost k2 = atom_parse(s.skip(k1))->Ok_0.1;
        proof {
            lemma_atom_parse_len(s.skip(k1));
            assert(self.remaining() =~= s.skip(k1 + k2));
        }
        let toname = self.read_atom()?;
        proof {
            let k3 = atom_parse(s.skip(k1 + k2))->Ok_0.1;
            lemma_atom_parse_len(s.skip(k1 + k2));
            assert(final(self).remaining() =~= s.skip(k1 + k2 + k3));
        }
        Ok(Msg::RegSend { from, cookie, toname })
    }

    fn read_reg_send_tt_fields(&mut self) -> (r: Result<Msg, Error>)
        requires
            old(self).wf(),
        ensures
            final(self).wf(),
            match reg_send_tt_fields_parse(old(self).remaining()) {
                Ok((m, k)) => r is Ok && r->Ok_0@ == m && final(self).remaining() == old(
                    self,
                ).remaining().skip(k),
                Err(e) => r == Err::<Msg, Error>(e),
            },
    {
        proof {
            reveal(reg_send_tt_fields_parse);
        }
        let ghost s = old(self).remaining();
        let from = self.read_pid()?;
        let ghost k1 = pid_parse(s)->Ok_0.1;
        proof {
            lemma_pid_parse_len(s);
        }
        let cookie = self.read_atom()?;
        let ghost k2 = atom_parse(s.skip(k1))->Ok_0.1;
        proof {
            lemma_atom_parse_len(s.skip(k1));
            assert(self.remaining() =~= s.skip(k1 + k2));
        }
        let toname = self.read_atom()?;
        let ghost k3 = atom_parse(s.skip(k1 + k2))->Ok_0.1;
        proof {
            lemma_atom_parse_len(s.skip(k1 + k2));
            assert(self.remaining() =~= s.skip(k1 + k2 + k3));
        }
        let token = self.read_trace()?;
        proof {
            let k4 = trace_parse(s.skip(k1 + k2 + k3))->Ok_0.1;
            lemma_trace_parse_len(s.skip(k1 + k2 + k3));
            assert(final(self).remaining() =~= s.skip(k1 + k2 + k3 + k4));
        }
        Ok(Msg::RegSendTT { from, cookie, toname, token })
    }

    fn read_exit_fields(&mut self) -> (r: Result<Msg, Error>)
        requires
            old(self).wf(),
        ensures
            final(self).wf(),
            match exit_fields_parse(old(self).remaining()) {
                Ok((m, k)) => r is Ok && r->Ok_0@ == m && final(self).remaining() == old(
                    self,
                ).remaining().skip(k),
                Err(e) => r == Err::<Msg, Error>(e),
            },
    {
        proof {
            reveal(exit_fields_parse);
        }
        let ghost s = old(self).remaining();
        let from = self.read_pid()?;
        let ghost k1 = pid_parse(s)->Ok_0.1;
        proof {
            lemma_pid_parse_len(s);
        }
        let to = self.read_pid()?;
        let ghost k2 = pid_parse(s.skip(k1))->Ok_0.1;
        proof {
            lemma_pid_parse_len(s.skip(k1));
            assert(self.remaining() =~= s.skip(k1 + k2));
        }
        let reason = self.read_str()?;
        proof {
            let k3 = str_parse(s.skip(k1 + k2))->Ok_0.1;
            lemma_str_parse_len(s.skip(k1 + k2));
            assert(final(self).remaining() =~= s.skip(k1 + k2 + k3));
        }
        Ok(Msg::Exit { from, to, reason })
    }

    fn read_exit_tt_fields(&mut self) -> (r: Result<Msg, Error>)
        requires
            old(self).wf(),
        ensures
            final(self).wf(),
            match exit_tt_fields_parse(old(self).remaining()) {
                Ok((m, k)) => r is Ok && r->Ok_0@ == m && final(self).remaining() == old(
                    self,
                ).remaining().skip(k),
                Err(e) => r == Err::<Msg, Error>(e),
            },
    {
        proof {
            reveal(exit_tt_fields_parse);
        }
        let ghost s = old(self).remaining();
        let from = self.read_pid()?;
        let ghost k1 = pid_parse(s)->Ok_0.1;
        proof {
            lemma_pid_parse_len(s);
        }
        let to = self.read_pid()?;
        let ghost k2 = pid_parse(s.skip(k1))->Ok_0.1;
        proof {
            lemma_pid_parse_len(s.skip(k1));
            assert(self.remaining() =~= s.skip(k1 + k2));
        }
        let token = self.read_trace()?;
        let ghost k3 = trace_parse(s.skip(k1 + k2))->Ok_0.1;
        proof {
            lemma_trace_parse_len(s.skip(k1 + k2));
            assert(self.remaining() =~= s.skip(k1 + k2 + k3));
        }
        let reason = self.read_str()?;
        proof {
            let k4 = str_parse(s.skip(k1 + k2 + k3))->Ok_0.1;
            lemma_str_parse_len(s.skip(k1 + k2 + k3));
            assert(final(self).remaining() =~= s.skip(k1 + k2 + k3 + k4));
        }
        Ok(Msg::ExitTT { from, to, token, reason })
    }

    /// Read a control message.
    pub fn read_msg(&mut self) -> (r: Result<Msg, Error>)
        requires
            old(self).wf(),
        ensures
            final(self).wf(),
            match msg_parse(old(self).remaining()) {
                Ok((m, k)) => r is Ok && r->Ok_0@ == m && final(self).remaining() == old(
                    self,
                ).remaining().skip(k),
                Err(e) => r == Err::<Msg, Error>(e),
            },
    {
        proof {
            reveal(msg_parse);
        }
        let ghost s = old(self).remaining();
        let tag = self.reader.read_u8()?;
        if tag != ERL_SMALL_TUPLE_EXT {
            return Err(Error::Io(IoKind::InvalidData));
        }
        let arity = self.reader.read_u8()?;
        let optag = self.reader.read_u8()?;
        if optag != ERL_SMALL_INTEGER_EXT {
            return Err(Error::Io(IoKind::InvalidData));
        }
        let op = self.reader.read_u8()?;
        let ghost rest = s.skip(4);
        proof {
            assert(self.remaining() =~= rest);
        }
        let m = if op == ERL_SEND && arity == 3 {
            self.read_send_fields()?
        } else if op == ERL_SEND_TT && arity == 4 {
            self.read_send_tt_fields()?
        } else if op == ERL_REG_SEND && arity == 4 {
            self.read_reg_send_fields()?
        } else if op == ERL_REG_SEND_TT && arity == 5 {
            self.read_reg_send_tt_fields()?
        } else if op == ERL_EXIT && arity == 4 {
            self.read_exit_fields()?
        } else if op == ERL_EXIT_TT && arity == 5 {
            self.read_exit_tt_fields()?
        } else {
            return Err(Error::Io(IoKind::InvalidData));
        };
        proof {
            lemma_send_fields_parse_len(rest);
            lemma_send_tt_fields_parse_len(rest);
            lemma_reg_send_fields_parse_len(rest);
            lemma_reg_send_tt_fields_parse_len(rest);
            lemma_exit_fields_parse_len(rest);
            lemma_exit_tt_fields_parse_len(rest);
            assert(final(self).remaining() =~= s.skip(4 + (msg_parse(s)->Ok_0.1 - 4)));
        }
        Ok(m)
    }
}

} // verus!
