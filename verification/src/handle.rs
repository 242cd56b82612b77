//! The post-handshake message loop's decisions, as pure functions of
//! each inbound frame: accept a tick, validate the pass-through
//! envelope, decode the control tuple, hand a `RegSend` payload to
//! the handler, and build the reply frame around the handler's bytes.
//!
//! The surrounding program runs the loop: it reads a u32 frame size
//! and that many bytes, asks `session_input` what the frame means,
//! runs the user handler on a delivered payload, and sends back what
//! `build_reply` returns. Any error fails that session.

use vstd::prelude::*;

use crate::consts::{ERL_PASS_THROUGH, ERL_VERSION_MAGIC};
use crate::de::{lemma_msg_parse_len, msg_parse, Deserializer};
use crate::error::{Error, IoKind};
use crate::io::{be32, Reader};
use crate::ser::Serializer;
use crate::term::{msg_bytes, pid_enc_ok, AtomV, Msg, MsgV, Pid, PidV};

verus! {

/// What one post-handshake frame asks the session to do.
#[derive(Debug)]
pub enum LoopAction {
    /// A keep-alive tick: no state change, no handler call.
    Tick,
    /// A `RegSend` control message whose payload goes to the handler.
    Deliver(Msg, Vec<u8>),
}

/// The specification mirror of `LoopAction`.
pub enum LoopActionV {
    Tick,
    Deliver(MsgV, Seq<u8>),
}

impl View for LoopAction {
    type V = LoopActionV;

    open spec fn view(&self) -> LoopActionV {
        match self {
            LoopAction::Tick => LoopActionV::Tick,
            LoopAction::Deliver(m, p) => LoopActionV::Deliver(m@, p@),
        }
    }
}

/// What a frame of the given size and bytes means. A zero size is a
/// tick. Otherwise the frame must open with the pass-through byte
/// and the version magic; its control tuple must be a supported
/// message; a `RegSend` is delivered with the payload bytes after
/// the payload's own version magic, and every other control message
/// is out of this core's scope.
pub open spec fn session_input_spec(size: u32, f: Seq<u8>) -> Result<LoopActionV, Error> {
    if size == 0 {
        Ok(LoopActionV::Tick)
    } else if f.len() < 1 {
        Err(Error::Io(IoKind::UnexpectedEof))
    } else if f[0] != ERL_PASS_THROUGH {
        Err(Error::Io(IoKind::InvalidData))
    } else if f.len() < 2 {
        Err(Error::Io(IoKind::UnexpectedEof))
    } else if f[1] != ERL_VERSION_MAGIC {
        Err(Error::Io(IoKind::InvalidData))
    } else {
        match msg_parse(f.skip(2)) {
            Ok((m, k)) => match m {
                MsgV::RegSend { .. } => {
                    let t = f.skip(2 + k);
                    if t.len() < 1 {
                        Err(Error::Io(IoKind::UnexpectedEof))
                    } else if t[0] != ERL_VERSION_MAGIC {
                        Err(Error::Io(IoKind::InvalidData))
                    } else {
                        Ok(LoopActionV::Deliver(m, t.skip(1)))
                    }
                },
                _ => Err(Error::Io(IoKind::Unsupported)),
            },
            Err(e) => Err(e),
        }
    }
}

/// Decide what one post-handshake frame means.
pub fn session_input(size: u32, frame: Vec<u8>) -> (r: Result<LoopAction, Error>)
    ensures
        match session_input_spec(size, frame@) {
            Ok(a) => r is Ok && r->Ok_0@ == a,
            Err(e) => r == Err::<LoopAction, Error>(e),
        },
{
    if size == 0 {
        return Ok(LoopAction::Tick);
    }
    let ghost f = frame@;
    let mut de = Deserializer::new(Reader::new(frame));
    let b0 = de.read_u8_raw()?;
    if b0 != ERL_PASS_THROUGH {
        return Err(Error::Io(IoKind::InvalidData));
    }
    let b1 = de.read_u8_raw()?;
    if b1 != ERL_VERSION_MAGIC {
        return Err(Error::Io(IoKind::InvalidData));
    }
    proof {
        assert(de.remaining() =~= f.skip(2));
    }
    let m = de.read_msg()?;
    let ghost k = msg_parse(f.skip(2))->Ok_0.1;
    proof {
        lemma_msg_parse_len(f.skip(2));
        assert(de.remaining() =~= f.skip(2 + k));
    }
    match &m {
        Msg::RegSend { .. } => {
            let magic = de.read_u8_raw()?;
            if magic != ERL_VERSION_MAGIC {
                return Err(Error::Io(IoKind::InvalidData));
            }
            let n = de.len();
            let payload = de.read_exact_raw(n)?;
            proof {
                assert(payload@ =~= f.skip(2 + k).skip(1));
            }
            Ok(LoopAction::Deliver(m, payload))
        }
        _ => Err(Error::Io(IoKind::Unsupported)),
    }
}

/// The reply frame around the handler's bytes: a u32 length, the
/// pass-through byte, the version magic, a `Send` control message
/// addressed to the requester with an empty cookie, the payload's
/// version magic, and the handler's bytes.
pub open spec fn reply_frame_bytes(from: PidV, data: Seq<u8>) -> Seq<u8> {
    let head = msg_bytes(MsgV::Send { cookie: AtomV::UTF8Small(seq![]), to: from });
    be32((2 + head.len() + 1 + data.len()) as u32) + seq![ERL_PASS_THROUGH, ERL_VERSION_MAGIC]
        + head + seq![ERL_VERSION_MAGIC] + data
}

/// Build the reply frame that answers a `RegSend` whose handler
/// returned the given bytes.
pub fn build_reply(from: &Pid, data: &[u8]) -> (r: Result<Vec<u8>, Error>)
    requires
        data@.len() <= 0xffff_0000,
    ensures
        pid_enc_ok(from@) ==> r is Ok && r->Ok_0@ == reply_frame_bytes(from@, data@),
        !pid_enc_ok(from@) ==> r == Err::<Vec<u8>, Error>(Error::Range),
{
    let mut hs = Serializer::new(crate::io::Writer::new());
    let empty_cookie = crate::term::Atom::UTF8Small(Vec::new());
    hs.write_tuple(3)?;
    hs.write_u8(crate::consts::ERL_SEND)?;
    match hs.write_atom(&empty_cookie) {
        Ok(()) => {}
        Err(_) => {
            return Err(Error::Range);
        }
    }
    match hs.write_pid(from) {
        Ok(()) => {}
        Err(_) => {
            return Err(Error::Range);
        }
    }
    let head = hs.into_vec();
    proof {
        let headv = msg_bytes(MsgV::Send { cookie: AtomV::UTF8Small(seq![]), to: from@ });
        assert(empty_cookie@ == AtomV::UTF8Small(Seq::<u8>::empty()));
        assert(AtomV::UTF8Small(seq![]) == AtomV::UTF8Small(Seq::<u8>::empty())) by {
            assert(seq![] =~= Seq::<u8>::empty());
        }
        assert(head@ =~= headv);
        assert(crate::term::atom_bytes(from@.node).len() <= 1023);
        assert(head@.len() <= 2048);
    }
    let len = 2 + head.len() + 1 + data.len();
    let mut w = crate::io::Writer::new();
    let _ = w.write_u32(len as u32);
    let _ = w.write_u8(ERL_PASS_THROUGH);
    let _ = w.write_u8(ERL_VERSION_MAGIC);
    let _ = w.write_all(head.as_slice());
    let _ = w.write_u8(ERL_VERSION_MAGIC);
    let _ = w.write_all(data);
    let v = w.into_vec();
    proof {
        assert(v@ =~= reply_frame_bytes(from@, data@));
    }
    Ok(v)
}

} // verus!
