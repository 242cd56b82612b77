//! Port-mode framing, for running as an Erlang `open_port` driver
//! with the `{packet, 2}` option: every term crosses standard input
//! or output behind a 16-bit length prefix and the version magic.

use vstd::prelude::*;

use crate::consts::ERL_VERSION_MAGIC;
use crate::error::{Error, IoKind};
use crate::io::{be16, u16_of, Reader, Writer};

verus! {

/// Parse one inbound port-mode frame: a u16 length, then that many
/// bytes led by the version magic. A zero length signals end of
/// stream as `Interrupted`.
pub open spec fn port_recv_parse(s: Seq<u8>) -> Result<(Seq<u8>, int), Error> {
    if s.len() < 2 {
        Err(Error::Io(IoKind::UnexpectedEof))
    } else {
        let n = u16_of(s[0], s[1]);
        if n == 0 {
            Err(Error::Io(IoKind::Interrupted))
        } else if s.len() < 2 + n {
            Err(Error::Io(IoKind::UnexpectedEof))
        } else if s[2] != ERL_VERSION_MAGIC {
            Err(Error::Io(IoKind::InvalidData))
        } else {
            Ok((s.subrange(3, 2 + n), 2 + n))
        }
    }
}

/// The outbound port-mode frame around a payload: a u16 length of
/// one plus the payload, the version magic, then the payload
/// (meaningful when the length fits).
pub open spec fn port_frame_bytes(p: Seq<u8>) -> Seq<u8> {
    be16((p.len() + 1) as u16) + seq![ERL_VERSION_MAGIC] + p
}

impl Reader {
    /// Receive one port-mode frame, validating the version magic and
    /// returning the term bytes after it.
    pub fn recv(&mut self) -> (r: Result<Vec<u8>, Error>)
        requires
            old(self).wf(),
        ensures
            final(self).wf(),
            match port_recv_parse(old(self).remaining()) {
                Ok((v, k)) => r is Ok && r->Ok_0@ == v && final(self).remaining() == old(
                    self,
                ).remaining().skip(k),
                Err(e) => r == Err::<Vec<u8>, Error>(e),
            },
    {
        let ghost s = old(self).remaining();
        let n = self.read_u16()?;
        if n == 0 {
            return Err(Error::Io(IoKind::Interrupted));
        }
        if self.len() < n as usize {
            return Err(Error::Io(IoKind::UnexpectedEof));
        }
        let magic = self.read_u8()?;
        if magic != ERL_VERSION_MAGIC {
            return Err(Error::Io(IoKind::InvalidData));
        }
        let v = self.read_exact_usize((n - 1) as usize)?;
        proof {
            assert(v@ =~= s.subrange(3, 2 + u16_of(s[0], s[1])));
            assert(final(self).remaining() =~= s.skip(2 + u16_of(s[0], s[1])));
        }
        Ok(v)
    }
}

impl Writer {
    /// Send one port-mode frame around the payload.
    pub fn send(&mut self, v: &[u8]) -> (r: Result<(), Error>)
        ensures
            v@.len() + 1 <= 65535 ==> r is Ok && final(self)@ == old(self)@ + port_frame_bytes(
                v@,
            ),
            v@.len() + 1 > 65535 ==> r == Err::<(), Error>(Error::Range) && *final(self) == *old(
                self,
            ),
    {
        let n = v.len();
        if n > 65534 {
            return Err(Error::Range);
        }
        self.write_u16((n + 1) as u16)?;
        self.write_u8(ERL_VERSION_MAGIC)?;
        self.write_all(v)?;
        self.flush()?;
        proof {
            assert(final(self)@ =~= old(self)@ + port_frame_bytes(v@));
        }
        Ok(())
    }
}

} // verus!
