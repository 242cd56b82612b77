//! Byte-level input and output.
//!
//! `Reader` consumes an in-memory buffer of bytes and `Writer` builds
//! one; both provide the fixed-width big-endian primitives that every
//! layer of the protocol is specified with. The surrounding program
//! moves bytes between these buffers and its sockets or standard
//! streams; everything that interprets the bytes lives here and is
//! verified.

use vstd::prelude::*;

use crate::error::{Error, IoKind};

verus! {

/// The codec's internal numeric sum: a one-byte unsigned integer, a
/// 32-bit signed integer, or a small-big magnitude with a sign byte
/// (0 non-negative, 1 negative).
#[derive(Clone, Copy, Debug, PartialEq, Eq, Structural)]
pub enum Number {
    U8(u8),
    I32(i32),
    SmallBig(u64, u8),
}

// --- Big-endian byte arithmetic, in Horner form -------------------------

/// The value of two big-endian bytes.
pub open spec fn u16_of(b0: u8, b1: u8) -> int {
    b0 * 256 + b1
}

/// The value of four big-endian bytes.
pub open spec fn u32_of(b0: u8, b1: u8, b2: u8, b3: u8) -> int {
    ((b0 * 256 + b1) * 256 + b2) * 256 + b3
}

/// The value of eight big-endian bytes.
pub open spec fn u64_of(b0: u8, b1: u8, b2: u8, b3: u8, b4: u8, b5: u8, b6: u8, b7: u8) -> int {
    ((((((b0 * 256 + b1) * 256 + b2) * 256 + b3) * 256 + b4) * 256 + b5) * 256 + b6) * 256 + b7
}

/// The two big-endian bytes of a 16-bit value.
pub open spec fn be16(v: u16) -> Seq<u8> {
    seq![(v / 256) as u8, (v % 256) as u8]
}

/// The four big-endian bytes of a 32-bit value.
pub open spec fn be32(v: u32) -> Seq<u8> {
    seq![
        (v / 256 / 256 / 256) as u8,
        (v / 256 / 256 % 256) as u8,
        (v / 256 % 256) as u8,
        (v % 256) as u8,
    ]
}

/// The eight big-endian bytes of a 64-bit value.
pub open spec fn be64(v: u64) -> Seq<u8> {
    seq![
        (v / 256 / 256 / 256 / 256 / 256 / 256 / 256) as u8,
        (v / 256 / 256 / 256 / 256 / 256 / 256 % 256) as u8,
        (v / 256 / 256 / 256 / 256 / 256 % 256) as u8,
        (v / 256 / 256 / 256 / 256 % 256) as u8,
        (v / 256 / 256 / 256 % 256) as u8,
        (v / 256 / 256 % 256) as u8,
        (v / 256 % 256) as u8,
        (v % 256) as u8,
    ]
}

/// The two's-complement value of a 16-bit word.
pub open spec fn sign16(n: int) -> int {
    if n < 0x8000 { n } else { n - 0x10000 }
}

/// The two's-complement value of a 32-bit word.
pub open spec fn sign32(n: int) -> int {
    if n < 0x8000_0000 { n } else { n - 0x1_0000_0000 }
}

/// The two's-complement value of a 64-bit word.
pub open spec fn sign64(n: int) -> int {
    if n < 0x8000_0000_0000_0000 { n } else { n - 0x1_0000_0000_0000_0000 }
}

/// The 16-bit two's-complement word of a signed value.
pub open spec fn rep16(v: i16) -> u16 {
    if v >= 0 { v as u16 } else { (v + 0x10000) as u16 }
}

/// The 32-bit two's-complement word of a signed value.
pub open spec fn rep32(v: i32) -> u32 {
    if v >= 0 { v as u32 } else { (v + 0x1_0000_0000) as u32 }
}

/// The 64-bit two's-complement word of a signed value.
pub open spec fn rep64(v: i64) -> u64 {
    if v >= 0 { v as u64 } else { (v + 0x1_0000_0000_0000_0000) as u64 }
}

// --- Reader -------------------------------------------------------------

/// A reader over an in-memory byte buffer, consuming from the front.
pub struct Reader {
    buf: Vec<u8>,
    pos: usize,
}

impl Reader {
    /// The reader's position never passes the end of its buffer.
    pub closed spec fn wf(&self) -> bool {
        self.pos <= self.buf@.len()
    }

    /// The bytes not yet consumed.
    pub closed spec fn remaining(&self) -> Seq<u8> {
        self.buf@.skip(self.pos as int)
    }

    pub fn new(buf: Vec<u8>) -> (r: Reader)
        ensures
            r.wf(),
            r.remaining() == buf@,
    {
        let r = Reader { buf, pos: 0 };
        proof {
            assert(r.remaining() =~= r.buf@);
        }
        r
    }

    /// How many bytes are left to read.
    pub fn len(&self) -> (r: usize)
        requires
            self.wf(),
        ensures
            r == self.remaining().len(),
    {
        self.buf.len() - self.pos
    }

    pub fn read_u8(&mut self) -> (r: Result<u8, Error>)
        requires
            old(self).wf(),
        ensures
            final(self).wf(),
            old(self).remaining().len() >= 1 ==> r == Ok::<u8, Error>(old(self).remaining()[0])
                && final(self).remaining() == old(self).remaining().skip(1),
            old(self).remaining().len() < 1 ==> r == Err::<u8, Error>(Error::Io(IoKind::UnexpectedEof))
                && *final(self) == *old(self),
    {
        if self.pos < self.buf.len() {
            let b = self.buf[self.pos];
            self.pos = self.pos + 1;
            proof {
                assert(final(self).remaining() =~= old(self).remaining().skip(1));
            }
            Ok(b)
        } else {
            proof {
                assert(old(self).remaining().len() == 0);
            }
            Err(Error::Io(IoKind::UnexpectedEof))
        }
    }

    pub fn read_u16(&mut self) -> (r: Result<u16, Error>)
        requires
            old(self).wf(),
        ensures
            final(self).wf(),
            old(self).remaining().len() >= 2 ==> {
                let s = old(self).remaining();
                r == Ok::<u16, Error>(u16_of(s[0], s[1]) as u16)
                    && final(self).remaining() == s.skip(2)
            },
            old(self).remaining().len() < 2 ==> r == Err::<u16, Error>(Error::Io(IoKind::UnexpectedEof))
                && *final(self) == *old(self),
    {
        if self.buf.len() - self.pos >= 2 {
            let b0 = self.buf[self.pos];
            let b1 = self.buf[self.pos + 1];
            self.pos = self.pos + 2;
            proof {
                assert(final(self).remaining() =~= old(self).remaining().skip(2));
            }
            Ok((b0 as u16) * 256 + (b1 as u16))
        } else {
            Err(Error::Io(IoKind::UnexpectedEof))
        }
    }

    pub fn read_u32(&mut self) -> (r: Result<u32, Error>)
        requires
            old(self).wf(),
        ensures
            final(self).wf(),
            old(self).remaining().len() >= 4 ==> {
                let s = old(self).remaining();
                r == Ok::<u32, Error>(u32_of(s[0], s[1], s[2], s[3]) as u32)
                    && final(self).remaining() == s.skip(4)
            },
            old(self).remaining().len() < 4 ==> r == Err::<u32, Error>(Error::Io(IoKind::UnexpectedEof))
                && *final(self) == *old(self),
    {
        if self.buf.len() - self.pos >= 4 {
            let b0 = self.buf[self.pos];
            let b1 = self.buf[self.pos + 1];
            let b2 = self.buf[self.pos + 2];
            let b3 = self.buf[self.pos + 3];
            self.pos = self.pos + 4;
            proof {
                assert(final(self).remaining() =~= old(self).remaining().skip(4));
            }
            Ok((((b0 as u32) * 256 + (b1 as u32)) * 256 + (b2 as u32)) * 256 + (b3 as u32))
        } else {
            Err(Error::Io(IoKind::UnexpectedEof))
        }
    }

    pub fn read_u64(&mut self) -> (r: Result<u64, Error>)
        requires
            old(self).wf(),
        ensures
            final(self).wf(),
            old(self).remaining().len() >= 8 ==> {
                let s = old(self).remaining();
                r == Ok::<u64, Error>(u64_of(s[0], s[1], s[2], s[3], s[4], s[5], s[6], s[7]) as u64)
                    && final(self).remaining() == s.skip(8)
            },
            old(self).remaining().len() < 8 ==> r == Err::<u64, Error>(Error::Io(IoKind::UnexpectedEof))
                && *final(self) == *old(self),
    {
        if self.buf.len() - self.pos >= 8 {
            let mut acc: u64 = 0;
            let b0 = self.buf[self.pos];
            let b1 = self.buf[self.pos + 1];
            let b2 = self.buf[self.pos + 2];
            let b3 = self.buf[self.pos + 3];
            let b4 = self.buf[self.pos + 4];
            let b5 = self.buf[self.pos + 5];
            let b6 = self.buf[self.pos + 6];
            let b7 = self.buf[self.pos + 7];
            acc = (b0 as u64) * 256 + (b1 as u64);
            acc = acc * 256 + (b2 as u64);
            acc = acc * 256 + (b3 as u64);
            acc = acc * 256 + (b4 as u64);
            acc = acc * 256 + (b5 as u64);
            acc = acc * 256 + (b6 as u64);
            acc = acc * 256 + (b7 as u64);
            self.pos = self.pos + 8;
            proof {
                assert(final(self).remaining() =~= old(self).remaining().skip(8));
            }
            Ok(acc)
        } else {
            Err(Error::Io(IoKind::UnexpectedEof))
        }
    }

    pub fn read_i8(&mut self) -> (r: Result<i8, Error>)
        requires
            old(self).wf(),
        ensures
            final(self).wf(),
            old(self).remaining().len() >= 1 ==> {
                let s = old(self).remaining();
                r is Ok && r->Ok_0 == (if s[0] < 0x80 { s[0] as int } else { s[0] - 0x100 })
                    && final(self).remaining() == s.skip(1)
            },
            old(self).remaining().len() < 1 ==> r == Err::<i8, Error>(Error::Io(IoKind::UnexpectedEof))
                && *final(self) == *old(self),
    {
        match self.read_u8() {
            Ok(u) => {
                if u < 0x80 {
                    Ok(u as i8)
                } else {
                    Ok((u as i16 - 0x100) as i8)
                }
            }
            Err(e) => Err(e),
        }
    }

    pub fn read_i16(&mut self) -> (r: Result<i16, Error>)
        requires
            old(self).wf(),
        ensures
            final(self).wf(),
            old(self).remaining().len() >= 2 ==> {
                let s = old(self).remaining();
                r is Ok && r->Ok_0 == sign16(u16_of(s[0], s[1]))
                    && final(self).remaining() == s.skip(2)
            },
            old(self).remaining().len() < 2 ==> r == Err::<i16, Error>(Error::Io(IoKind::UnexpectedEof))
                && *final(self) == *old(self),
    {
        match self.read_u16() {
            Ok(u) => {
                if u < 0x8000 {
                    Ok(u as i16)
                } else {
                    Ok(((u as i32) - 0x10000) as i16)
                }
            }
            Err(e) => Err(e),
        }
    }

    pub fn read_i32(&mut self) -> (r: Result<i32, Error>)
        requires
            old(self).wf(),
        ensures
            final(self).wf(),
            old(self).remaining().len() >= 4 ==> {
                let s = old(self).remaining();
                r is Ok && r->Ok_0 == sign32(u32_of(s[0], s[1], s[2], s[3]))
                    && final(self).remaining() == s.skip(4)
            },
            old(self).remaining().len() < 4 ==> r == Err::<i32, Error>(Error::Io(IoKind::UnexpectedEof))
                && *final(self) == *old(self),
    {
        match self.read_u32() {
            Ok(u) => {
                if u < 0x8000_0000 {
                    Ok(u as i32)
                } else {
                    Ok(((u as i64) - 0x1_0000_0000) as i32)
                }
            }
            Err(e) => Err(e),
        }
    }

    pub fn read_i64(&mut self) -> (r: Result<i64, Error>)
        requires
            old(self).wf(),
        ensures
            final(self).wf(),
            old(self).remaining().len() >= 8 ==> {
                let s = old(self).remaining();
                r is Ok && r->Ok_0 == sign64(u64_of(s[0], s[1], s[2], s[3], s[4], s[5], s[6], s[7]))
                    && final(self).remaining() == s.skip(8)
            },
            old(self).remaining().len() < 8 ==> r == Err::<i64, Error>(Error::Io(IoKind::UnexpectedEof))
                && *final(self) == *old(self),
    {
        match self.read_u64() {
            Ok(u) => {
                if u < 0x8000_0000_0000_0000 {
                    Ok(u as i64)
                } else {
                    let m = u - 0x8000_0000_0000_0000;
                    Ok(i64::MIN + (m as i64))
                }
            }
            Err(e) => Err(e),
        }
    }

    /// Read exactly `n` bytes into a fresh buffer.
    pub fn read_exact_usize(&mut self, n: usize) -> (r: Result<Vec<u8>, Error>)
        requires
            old(self).wf(),
        ensures
            final(self).wf(),
            old(self).remaining().len() >= n ==> {
                &&& r is Ok
                &&& r->Ok_0@ == old(self).remaining().take(n as int)
                &&& final(self).remaining() == old(self).remaining().skip(n as int)
            },
            old(self).remaining().len() < n ==> r == Err::<Vec<u8>, Error>(Error::Io(IoKind::UnexpectedEof))
                && *final(self) == *old(self),
    {
        if self.buf.len() - self.pos >= n {
            let mut v: Vec<u8> = Vec::new();
            let start = self.pos;
            let mut i: usize = 0;
            while i < n
                invariant
                    self.buf == old(self).buf,
                    self.pos == start,
                    self.wf(),
                    i <= n,
                    start + n <= self.buf@.len(),
                    start + n <= usize::MAX,
                    v@ == self.remaining().take(n as int).take(i as int),
                decreases n - i,
            {
                v.push(self.buf[start + i]);
                i = i + 1;
                proof {
                    assert(v@ =~= self.remaining().take(n as int).take(i as int));
                }
            }
            self.pos = self.pos + n;
            proof {
                assert(v@ =~= old(self).remaining().take(n as int));
                assert(final(self).remaining() =~= old(self).remaining().skip(n as int));
            }
            Ok(v)
        } else {
            Err(Error::Io(IoKind::UnexpectedEof))
        }
    }

    /// Fill the given buffer completely from the stream.
    pub fn read_exact(&mut self, buf: &mut Vec<u8>) -> (r: Result<(), Error>)
        requires
            old(self).wf(),
        ensures
            final(self).wf(),
            old(self).remaining().len() >= old(buf)@.len() ==> {
                &&& r is Ok
                &&& final(buf)@ == old(self).remaining().take(old(buf)@.len() as int)
                &&& final(self).remaining() == old(self).remaining().skip(old(buf)@.len() as int)
            },
            old(self).remaining().len() < old(buf)@.len() ==> {
                &&& r == Err::<(), Error>(Error::Io(IoKind::UnexpectedEof))
                &&& *final(self) == *old(self)
                &&& *final(buf) == *old(buf)
            },
    {
        let n = buf.len();
        match self.read_exact_usize(n) {
            Ok(v) => {
                *buf = v;
                Ok(())
            }
            Err(e) => Err(e),
        }
    }

    /// Read a `u8` length prefix, then that many bytes.
    pub fn read_exact_u8(&mut self) -> (r: Result<Vec<u8>, Error>)
        requires
            old(self).wf(),
        ensures
            final(self).wf(),
            ({
                let s = old(self).remaining();
                &&& (s.len() >= 1 && s.len() >= 1 + s[0]) ==> {
                    &&& r is Ok
                    &&& r->Ok_0@ == s.skip(1).take(s[0] as int)
                    &&& final(self).remaining() == s.skip(1 + s[0])
                }
                &&& !(s.len() >= 1 && s.len() >= 1 + s[0]) ==> r == Err::<Vec<u8>, Error>(
                    Error::Io(IoKind::UnexpectedEof),
                )
            }),
    {
        let n = self.read_u8()?;
        let v = self.read_exact_usize(n as usize)?;
        Ok(v)
    }

    /// Read a big-endian `u16` length prefix, then that many bytes.
    pub fn read_exact_u16(&mut self) -> (r: Result<Vec<u8>, Error>)
        requires
            old(self).wf(),
        ensures
            final(self).wf(),
            ({
                let s = old(self).remaining();
                let n = u16_of(s[0], s[1]);
                &&& (s.len() >= 2 && s.len() >= 2 + n) ==> {
                    &&& r is Ok
                    &&& r->Ok_0@ == s.skip(2).take(n)
                    &&& final(self).remaining() == s.skip(2 + n)
                }
                &&& !(s.len() >= 2 && s.len() >= 2 + n) ==> r == Err::<Vec<u8>, Error>(
                    Error::Io(IoKind::UnexpectedEof),
                )
            }),
    {
        let n = self.read_u16()?;
        let v = self.read_exact_usize(n as usize)?;
        Ok(v)
    }


    /// Read a `u8` length prefix, then that many bytes of UTF-8 text.
    pub fn read_string_u8(&mut self) -> (r: Result<Vec<u8>, Error>)
        requires
            old(self).wf(),
        ensures
            final(self).wf(),
            ({
                let s = old(self).remaining();
                &&& (s.len() >= 1 && s.len() >= 1 + s[0] && crate::utf8::is_utf8(
                    s.skip(1).take(s[0] as int),
                )) ==> {
                    &&& r is Ok
                    &&& r->Ok_0@ == s.skip(1).take(s[0] as int)
                    &&& final(self).remaining() == s.skip(1 + s[0])
                }
                &&& (s.len() >= 1 && s.len() >= 1 + s[0] && !crate::utf8::is_utf8(
                    s.skip(1).take(s[0] as int),
                )) ==> r == Err::<Vec<u8>, Error>(Error::Utf8)
                &&& !(s.len() >= 1 && s.len() >= 1 + s[0]) ==> r == Err::<Vec<u8>, Error>(
                    Error::Io(IoKind::UnexpectedEof),
                )
            }),
    {
        let v = self.read_exact_u8()?;
        if !crate::utf8::check_utf8(&v) {
            return Err(Error::Utf8);
        }
        Ok(v)
    }

    /// Read a big-endian `u16` length prefix, then that many bytes of
    /// UTF-8 text.
    pub fn read_string_u16(&mut self) -> (r: Result<Vec<u8>, Error>)
        requires
            old(self).wf(),
        ensures
            final(self).wf(),
            ({
                let s = old(self).remaining();
                let n = u16_of(s[0], s[1]);
                &&& (s.len() >= 2 && s.len() >= 2 + n && crate::utf8::is_utf8(
                    s.skip(2).take(n),
                )) ==> {
                    &&& r is Ok
                    &&& r->Ok_0@ == s.skip(2).take(n)
                    &&& final(self).remaining() == s.skip(2 + n)
                }
                &&& (s.len() >= 2 && s.len() >= 2 + n && !crate::utf8::is_utf8(s.skip(2).take(n)))
                    ==> r == Err::<Vec<u8>, Error>(Error::Utf8)
                &&& !(s.len() >= 2 && s.len() >= 2 + n) ==> r == Err::<Vec<u8>, Error>(
                    Error::Io(IoKind::UnexpectedEof),
                )
            }),
    {
        let v = self.read_exact_u16()?;
        if !crate::utf8::check_utf8(&v) {
            return Err(Error::Utf8);
        }
        Ok(v)
    }

    /// Read a big-endian `u32` length prefix, then that many bytes.
    pub fn read_exact_u32(&mut self) -> (r: Result<Vec<u8>, Error>)
        requires
            old(self).wf(),
        ensures
            final(self).wf(),
            ({
                let s = old(self).remaining();
                let n = u32_of(s[0], s[1], s[2], s[3]);
                &&& (s.len() >= 4 && s.len() >= 4 + n) ==> {
                    &&& r is Ok
                    &&& r->Ok_0@ == s.skip(4).take(n)
                    &&& final(self).remaining() == s.skip(4 + n)
                }
                &&& !(s.len() >= 4 && s.len() >= 4 + n) ==> r == Err::<Vec<u8>, Error>(
                    Error::Io(IoKind::UnexpectedEof),
                )
            }),
    {
        let n = self.read_u32()?;
        if n as u64 > usize::MAX as u64 {
            // The buffer itself cannot hold that many bytes.
            let l = self.len();
            assert(old(self).remaining().len() == l + 4);
            return Err(Error::Io(IoKind::UnexpectedEof));
        }
        let v = self.read_exact_usize(n as usize)?;
        Ok(v)
    }
}

// --- Writer -------------------------------------------------------------

/// A writer that appends to an in-memory byte buffer.
pub struct Writer {
    buf: Vec<u8>,
}

impl View for Writer {
    type V = Seq<u8>;

    closed spec fn view(&self) -> Seq<u8> {
        self.buf@
    }
}

impl Writer {
    pub fn new() -> (r: Writer)
        ensures
            r@ == Seq::<u8>::empty(),
    {
        let w = Writer { buf: Vec::new() };
        proof {
            assert(w@ =~= Seq::<u8>::empty());
        }
        w
    }

    /// Hand the written bytes out.
    pub fn into_vec(self) -> (r: Vec<u8>)
        ensures
            r@ == self@,
    {
        self.buf
    }

    /// How many bytes have been written.
    pub fn len(&self) -> (r: usize)
        ensures
            r == self@.len(),
    {
        self.buf.len()
    }

    pub fn write_u8(&mut self, v: u8) -> (r: Result<(), Error>)
        ensures
            r is Ok,
            final(self)@ == old(self)@ + seq![v],
    {
        self.buf.push(v);
        proof {
            assert(final(self)@ =~= old(self)@ + seq![v]);
        }
        Ok(())
    }

    pub fn write_all(&mut self, v: &[u8]) -> (r: Result<(), Error>)
        ensures
            r is Ok,
            final(self)@ == old(self)@ + v@,
    {
        let n = v.len();
        let mut i: usize = 0;
        while i < n
            invariant
                i <= n,
                n == v@.len(),
                self@ == old(self)@ + v@.take(i as int),
            decreases n - i,
        {
            self.buf.push(v[i]);
            i = i + 1;
            proof {
                assert(self@ =~= old(self)@ + v@.take(i as int));
            }
        }
        proof {
            assert(old(self)@ + v@.take(n as int) =~= old(self)@ + v@);
        }
        Ok(())
    }

    /// Writing to an in-memory buffer needs no flushing; this exists so
    /// that callers written against a buffered stream read naturally.
    pub fn flush(&mut self) -> (r: Result<(), Error>)
        ensures
            r is Ok,
            *final(self) == *old(self),
    {
        Ok(())
    }

    pub fn write_u16(&mut self, v: u16) -> (r: Result<(), Error>)
        ensures
            r is Ok,
            final(self)@ == old(self)@ + be16(v),
    {
        self.buf.push((v / 256) as u8);
        self.buf.push((v % 256) as u8);
        proof {
            assert(final(self)@ =~= old(self)@ + be16(v));
        }
        Ok(())
    }

    pub fn write_u32(&mut self, v: u32) -> (r: Result<(), Error>)
        ensures
            r is Ok,
            final(self)@ == old(self)@ + be32(v),
    {
        self.buf.push((v / 256 / 256 / 256) as u8);
        self.buf.push((v / 256 / 256 % 256) as u8);
        self.buf.push((v / 256 % 256) as u8);
        self.buf.push((v % 256) as u8);
        proof {
            assert(final(self)@ =~= old(self)@ + be32(v));
        }
        Ok(())
    }

    pub fn write_u64(&mut self, v: u64) -> (r: Result<(), Error>)
        ensures
            r is Ok,
            final(self)@ == old(self)@ + be64(v),
    {
        self.buf.push((v / 256 / 256 / 256 / 256 / 256 / 256 / 256) as u8);
        self.buf.push((v / 256 / 256 / 256 / 256 / 256 / 256 % 256) as u8);
        self.buf.push((v / 256 / 256 / 256 / 256 / 256 % 256) as u8);
        self.buf.push((v / 256 / 256 / 256 / 256 % 256) as u8);
        self.buf.push((v / 256 / 256 / 256 % 256) as u8);
        self.buf.push((v / 256 / 256 % 256) as u8);
        self.buf.push((v / 256 % 256) as u8);
        self.buf.push((v % 256) as u8);
        proof {
            assert(final(self)@ =~= old(self)@ + be64(v));
        }
        Ok(())
    }

    pub fn write_i8(&mut self, v: i8) -> (r: Result<(), Error>)
        ensures
            r is Ok,
            final(self)@ == old(self)@ + seq![(if v >= 0 { v as int } else { v + 0x100 }) as u8],
    {
        let u: u8 = if v >= 0 {
            v as u8
        } else {
            ((v as i16) + 0x100) as u8
        };
        self.write_u8(u)
    }

    pub fn write_i16(&mut self, v: i16) -> (r: Result<(), Error>)
        ensures
            r is Ok,
            final(self)@ == old(self)@ + be16(rep16(v)),
    {
        let u: u16 = if v >= 0 {
            v as u16
        } else {
            ((v as i32) + 0x10000) as u16
        };
        self.write_u16(u)
    }

    pub fn write_i32(&mut self, v: i32) -> (r: Result<(), Error>)
        ensures
            r is Ok,
            final(self)@ == old(self)@ + be32(rep32(v)),
    {
        let u: u32 = if v >= 0 {
            v as u32
        } else {
            ((v as i64) + 0x1_0000_0000) as u32
        };
        self.write_u32(u)
    }

    pub fn write_i64(&mut self, v: i64) -> (r: Result<(), Error>)
        ensures
            r is Ok,
            final(self)@ == old(self)@ + be64(rep64(v)),
    {
        let u: u64 = if v >= 0 {
            v as u64
        } else {
            let m = v - i64::MIN;
            (m as u64) + 0x8000_0000_0000_0000
        };
        self.write_u64(u)
    }
}

/// Compare two byte strings for equality.
pub fn bytes_eq(a: &[u8], b: &[u8]) -> (r: bool)
    ensures
        r == (a@ == b@),
{
    if a.len() != b.len() {
        proof {
            assert(a@.len() != b@.len());
        }
        return false;
    }
    let n = a.len();
    let mut i: usize = 0;
    while i < n
        invariant
            i <= n,
            n == a@.len() == b@.len(),
            forall|j: int| 0 <= j < i ==> a@[j] == b@[j],
        decreases n - i,
    {
        if a[i] != b[i] {
            return false;
        }
        i = i + 1;
    }
    proof {
        assert(a@ =~= b@);
    }
    true
}

} // verus!
