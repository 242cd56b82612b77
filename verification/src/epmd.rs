//! The EPMD client's wire logic: build the registration and lookup
//! requests and interpret the daemon's responses. The surrounding
//! program owns the TCP connection; registration lasts exactly as
//! long as that connection stays open.

use vstd::prelude::*;

use crate::consts::{
    EI_DIST_HIGH, EI_DIST_LOW, EI_EPMD_ALIVE2_REQ, EI_EPMD_ALIVE2_RESP, EI_EPMD_PORT2_REQ,
    EI_EPMD_PORT2_RESP, EI_HIDDEN_NODE, EI_MAXALIVELEN, EI_MYPROTO, EI_SUCCESS,
};
use crate::error::{Error, IoKind};
use crate::io::{be16, u16_of};

verus! {

/// The `ALIVE2_REQ` registration request for an alive name and
/// listening port: length, request byte, port, node type (hidden),
/// protocol, the distribution range, the name, and no extra info.
pub open spec fn publish_request_bytes(alive: Seq<u8>, port: u16) -> Seq<u8> {
    be16((13 + alive.len()) as u16) + seq![EI_EPMD_ALIVE2_REQ] + be16(port) + seq![
        EI_HIDDEN_NODE,
        EI_MYPROTO,
    ] + be16(EI_DIST_HIGH) + be16(EI_DIST_LOW) + be16(alive.len() as u16) + alive + be16(0)
}

/// Build the registration request. An alive name beyond the
/// protocol's bound is rejected with `Range`.
pub fn publish_request(alive: &[u8], port: u16) -> (r: Result<Vec<u8>, Error>)
    ensures
        alive@.len() <= EI_MAXALIVELEN ==> r is Ok && r->Ok_0@ == publish_request_bytes(
            alive@,
            port,
        ),
        alive@.len() > EI_MAXALIVELEN ==> r == Err::<Vec<u8>, Error>(Error::Range),
{
    if alive.len() > EI_MAXALIVELEN {
        return Err(Error::Range);
    }
    let mut w = crate::io::Writer::new();
    w.write_u16((13 + alive.len()) as u16)?;
    w.write_u8(EI_EPMD_ALIVE2_REQ)?;
    w.write_u16(port)?;
    w.write_u8(EI_HIDDEN_NODE)?;
    w.write_u8(EI_MYPROTO)?;
    w.write_u16(EI_DIST_HIGH)?;
    w.write_u16(EI_DIST_LOW)?;
    w.write_u16(alive.len() as u16)?;
    w.write_all(alive)?;
    w.write_u16(0)?;
    let v = w.into_vec();
    proof {
        assert(v@ =~= publish_request_bytes(alive@, port));
    }
    Ok(v)
}

/// What the four response bytes of a registration yield: the
/// creation number, when the response byte and the status are right.
pub open spec fn publish_response_spec(f: Seq<u8>) -> Result<u8, Error> {
    if f.len() < 2 {
        Err(Error::Io(IoKind::UnexpectedEof))
    } else if f[0] != EI_EPMD_ALIVE2_RESP {
        Err(Error::Io(IoKind::InvalidData))
    } else if f[1] != EI_SUCCESS {
        Err(Error::Io(IoKind::InvalidInput))
    } else if f.len() < 4 {
        Err(Error::Io(IoKind::UnexpectedEof))
    } else {
        Ok(f[2])
    }
}

/// Interpret the registration response.
pub fn parse_publish_response(resp: &Vec<u8>) -> (r: Result<u8, Error>)
    ensures
        r == publish_response_spec(resp@),
{
    if resp.len() < 2 {
        return Err(Error::Io(IoKind::UnexpectedEof));
    }
    if resp[0] != EI_EPMD_ALIVE2_RESP {
        return Err(Error::Io(IoKind::InvalidData));
    }
    if resp[1] != EI_SUCCESS {
        return Err(Error::Io(IoKind::InvalidInput));
    }
    if resp.len() < 4 {
        return Err(Error::Io(IoKind::UnexpectedEof));
    }
    Ok(resp[2])
}

/// The `PORT2_REQ` lookup request for an alive name.
pub open spec fn port_request_bytes(alive: Seq<u8>) -> Seq<u8> {
    be16((1 + alive.len()) as u16) + seq![EI_EPMD_PORT2_REQ] + alive
}

/// Build the lookup request. An alive name beyond the protocol's
/// bound is rejected with `Range`.
pub fn port_request(alive: &[u8]) -> (r: Result<Vec<u8>, Error>)
    ensures
        alive@.len() <= EI_MAXALIVELEN ==> r is Ok && r->Ok_0@ == port_request_bytes(alive@),
        alive@.len() > EI_MAXALIVELEN ==> r == Err::<Vec<u8>, Error>(Error::Range),
{
    if alive.len() > EI_MAXALIVELEN {
        return Err(Error::Range);
    }
    let mut w = crate::io::Writer::new();
    w.write_u16((1 + alive.len()) as u16)?;
    w.write_u8(EI_EPMD_PORT2_REQ)?;
    w.write_all(alive)?;
    let v = w.into_vec();
    proof {
        assert(v@ =~= port_request_bytes(alive@));
    }
    Ok(v)
}

/// The smaller of two 16-bit values.
pub open spec fn min_u16(a: u16, b: u16) -> u16 {
    if a <= b { a } else { b }
}

/// What the ten response bytes of a lookup yield: the node's
/// listening port and the distribution version agreed with the
/// daemon, when the response shape and ranges are right.
pub open spec fn port_response_spec(f: Seq<u8>) -> Result<(u16, u16), Error> {
    if f.len() < 2 {
        Err(Error::Io(IoKind::UnexpectedEof))
    } else if f[0] != EI_EPMD_PORT2_RESP {
        Err(Error::Io(IoKind::InvalidData))
    } else if f[1] != EI_SUCCESS {
        Err(Error::Io(IoKind::InvalidInput))
    } else if f.len() < 10 {
        Err(Error::Io(IoKind::UnexpectedEof))
    } else if f[4] != EI_HIDDEN_NODE || f[5] != EI_MYPROTO {
        Err(Error::Io(IoKind::InvalidData))
    } else {
        let high = u16_of(f[6], f[7]) as u16;
        let low = u16_of(f[8], f[9]) as u16;
        if low > EI_DIST_HIGH || high < EI_DIST_LOW {
            Err(Error::Io(IoKind::InvalidData))
        } else {
            Ok((u16_of(f[2], f[3]) as u16, min_u16(EI_DIST_HIGH, high)))
        }
    }
}

/// Interpret the lookup response.
pub fn parse_port_response(resp: &Vec<u8>) -> (r: Result<(u16, u16), Error>)
    ensures
        r == port_response_spec(resp@),
{
    if resp.len() < 2 {
        return Err(Error::Io(IoKind::UnexpectedEof));
    }
    if resp[0] != EI_EPMD_PORT2_RESP {
        return Err(Error::Io(IoKind::InvalidData));
    }
    if resp[1] != EI_SUCCESS {
        return Err(Error::Io(IoKind::InvalidInput));
    }
    if resp.len() < 10 {
        return Err(Error::Io(IoKind::UnexpectedEof));
    }
    if resp[4] != EI_HIDDEN_NODE || resp[5] != EI_MYPROTO {
        return Err(Error::Io(IoKind::InvalidData));
    }
    let high = (resp[6] as u16) * 256 + (resp[7] as u16);
    let low = (resp[8] as u16) * 256 + (resp[9] as u16);
    if low > EI_DIST_HIGH || high < EI_DIST_LOW {
        return Err(Error::Io(IoKind::InvalidData));
    }
    let port = (resp[2] as u16) * 256 + (resp[3] as u16);
    let agreed = if EI_DIST_HIGH <= high {
        EI_DIST_HIGH
    } else {
        high
    };
    Ok((port, agreed))
}

} // verus!
