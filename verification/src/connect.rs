//! The distribution handshake, server role: parse the peer's name
//! frame, build the status and challenge frames, check the peer's
//! digest, and build the acknowledging digest.
//!
//! The surrounding program moves each u16-prefixed frame between
//! these functions and its socket; every byte and every decision is
//! specified here. The digest input is the cookie's raw bytes
//! followed by the decimal ASCII of the 32-bit challenge, with no
//! separators.

use vstd::prelude::*;

use crate::consts::{
    DFLAG_BIG_CREATION, DFLAG_DIST_MONITOR, DFLAG_EXTENDED_PIDS_PORTS, DFLAG_EXTENDED_REFERENCES,
    DFLAG_FUN_TAGS, DFLAG_MAP_TAG, DFLAG_NEW_FLOATS, DFLAG_NEW_FUN_TAGS, DFLAG_SMALL_ATOM_TAGS,
    DFLAG_UTF8_ATOMS, MAXNODELEN,
};
use crate::error::{Error, IoKind};
use crate::io::{be16, be32, bytes_eq, u16_of, u32_of};
use crate::md5::{digest, md5_of};

verus! {

/// The capability flags this node advertises.
pub const HANDSHAKE_FLAGS: u32 = DFLAG_EXTENDED_REFERENCES | DFLAG_DIST_MONITOR
    | DFLAG_EXTENDED_PIDS_PORTS | DFLAG_FUN_TAGS | DFLAG_NEW_FUN_TAGS | DFLAG_NEW_FLOATS
    | DFLAG_SMALL_ATOM_TAGS | DFLAG_UTF8_ATOMS | DFLAG_MAP_TAG | DFLAG_BIG_CREATION;

/// The decimal ASCII digits of a 32-bit value.
pub open spec fn dec_ascii(n: u32) -> Seq<u8>
    decreases n,
{
    if n < 10 {
        seq![(48 + n) as u8]
    } else {
        dec_ascii(n / 10) + seq![(48 + n % 10) as u8]
    }
}

/// The byte string the handshake digests: the cookie followed by the
/// decimal ASCII of the challenge.
pub open spec fn digest_input(cookie: Seq<u8>, challenge: u32) -> Seq<u8> {
    cookie + dec_ascii(challenge)
}

/// Write a 32-bit value in decimal ASCII.
pub fn u32_ascii(n: u32) -> (r: Vec<u8>)
    ensures
        r@ == dec_ascii(n),
    decreases n,
{
    if n < 10 {
        let mut v: Vec<u8> = Vec::new();
        v.push((48 + n) as u8);
        proof {
            assert(v@ =~= dec_ascii(n));
        }
        v
    } else {
        let mut v = u32_ascii(n / 10);
        v.push((48 + (n % 10)) as u8);
        proof {
            assert(v@ =~= dec_ascii(n));
        }
        v
    }
}

/// The MD5 digest a peer must present for the given cookie and
/// challenge.
pub fn challenge_digest(cookie: &[u8], challenge: u32) -> (r: Vec<u8>)
    ensures
        r@ == md5_of(digest_input(cookie@, challenge)),
        r@.len() == 16,
{
    let mut input: Vec<u8> = Vec::new();
    let n = cookie.len();
    let mut i: usize = 0;
    while i < n
        invariant
            i <= n,
            n == cookie@.len(),
            input@ == cookie@.take(i as int),
        decreases n - i,
    {
        input.push(cookie[i]);
        i = i + 1;
        proof {
            assert(input@ =~= cookie@.take(i as int));
        }
    }
    let mut ascii = u32_ascii(challenge);
    let m = ascii.len();
    let mut j: usize = 0;
    while j < m
        invariant
            j <= m,
            m == ascii@.len(),
            input@ == cookie@.take(cookie@.len() as int) + ascii@.take(j as int),
        decreases m - j,
    {
        input.push(ascii[j]);
        j = j + 1;
        proof {
            assert(input@ =~= cookie@.take(cookie@.len() as int) + ascii@.take(j as int));
        }
    }
    proof {
        assert(input@ =~= digest_input(cookie@, challenge));
    }
    digest(input.as_slice())
}

/// What the peer's name frame yields: its distribution version, once
/// the frame is well formed and the mandatory capability flags are
/// both present.
pub open spec fn recv_version_spec(f: Seq<u8>) -> Result<u16, Error> {
    if f.len() > 7 + MAXNODELEN {
        Err(Error::Io(IoKind::InvalidData))
    } else if f.len() < 7 {
        Err(Error::Io(IoKind::UnexpectedEof))
    } else if f[0] != 0x6e {
        Err(Error::Io(IoKind::InvalidData))
    } else {
        let flags = u32_of(f[3], f[4], f[5], f[6]) as u32;
        if flags & DFLAG_EXTENDED_REFERENCES == 0 || flags & DFLAG_EXTENDED_PIDS_PORTS == 0 {
            Err(Error::Io(IoKind::InvalidData))
        } else {
            Ok(u16_of(f[1], f[2]) as u16)
        }
    }
}

/// Parse the peer's name frame (the bytes after the u16 length
/// prefix): the tag `'n'`, the version, the capability flags, then
/// the peer's node name, which is not interpreted.
pub fn recv_version(frame: &Vec<u8>) -> (r: Result<u16, Error>)
    ensures
        r == recv_version_spec(frame@),
{
    if frame.len() > 7 + MAXNODELEN {
        return Err(Error::Io(IoKind::InvalidData));
    }
    if frame.len() < 7 {
        return Err(Error::Io(IoKind::UnexpectedEof));
    }
    if frame[0] != 0x6e {
        return Err(Error::Io(IoKind::InvalidData));
    }
    let flags = (((frame[3] as u32) * 256 + (frame[4] as u32)) * 256 + (frame[5] as u32)) * 256
        + (frame[6] as u32);
    if flags & DFLAG_EXTENDED_REFERENCES == 0 || flags & DFLAG_EXTENDED_PIDS_PORTS == 0 {
        return Err(Error::Io(IoKind::InvalidData));
    }
    Ok((frame[1] as u16) * 256 + (frame[2] as u16))
}

/// The status frame this node answers the name frame with: a u16
/// length, the tag `'s'`, and the ASCII status `ok`.
pub open spec fn status_frame() -> Seq<u8> {
    seq![0u8, 3u8, 0x73u8, 0x6fu8, 0x6bu8]
}

/// Build the status frame.
pub fn send_status() -> (r: Vec<u8>)
    ensures
        r@ == status_frame(),
{
    let mut v: Vec<u8> = Vec::new();
    v.push(0);
    v.push(3);
    v.push(0x73);
    v.push(0x6f);
    v.push(0x6b);
    proof {
        assert(v@ =~= status_frame());
    }
    v
}

/// The challenge frame: a u16 length, the tag `'n'`, the version,
/// this node's capability flags, the challenge, and this node's name.
pub open spec fn challenge_frame_bytes(name: Seq<u8>, version: u16, challenge: u32) -> Seq<u8> {
    be16((11 + name.len()) as u16) + seq![0x6eu8] + be16(version) + be32(HANDSHAKE_FLAGS) + be32(
        challenge,
    ) + name
}

/// Build the challenge frame. A node name longer than the protocol's
/// bound is rejected with `Range`.
pub fn send_challenge(name: &[u8], version: u16, challenge: u32) -> (r: Result<Vec<u8>, Error>)
    ensures
        name@.len() <= MAXNODELEN ==> r is Ok && r->Ok_0@ == challenge_frame_bytes(
            name@,
            version,
            challenge,
        ),
        name@.len() > MAXNODELEN ==> r == Err::<Vec<u8>, Error>(Error::Range),
{
    if name.len() > MAXNODELEN {
        return Err(Error::Range);
    }
    let mut w = crate::io::Writer::new();
    w.write_u16((11 + name.len()) as u16)?;
    w.write_u8(0x6e)?;
    w.write_u16(version)?;
    w.write_u32(HANDSHAKE_FLAGS)?;
    w.write_u32(challenge)?;
    w.write_all(name)?;
    let v = w.into_vec();
    proof {
        assert(v@ =~= challenge_frame_bytes(name@, version, challenge));
    }
    Ok(v)
}

/// What the challenge reply yields: the peer's own challenge, but
/// only when the frame is 21 bytes led by `'r'` and its digest equals
/// the MD5 of the cookie and this node's challenge.
pub open spec fn challenge_reply_spec(f: Seq<u8>, cookie: Seq<u8>, our_challenge: u32) -> Result<
    u32,
    Error,
> {
    if f.len() != 21 {
        Err(Error::Io(IoKind::InvalidData))
    } else if f[0] != 0x72 {
        Err(Error::Io(IoKind::InvalidData))
    } else if f.subrange(5, 21) != md5_of(digest_input(cookie, our_challenge)) {
        Err(Error::Io(IoKind::InvalidData))
    } else {
        Ok(u32_of(f[1], f[2], f[3], f[4]) as u32)
    }
}

/// Check the peer's challenge reply against the shared cookie; on
/// success return the peer's challenge. A digest mismatch fails the
/// handshake.
pub fn recv_challenge_reply(frame: &Vec<u8>, cookie: &[u8], our_challenge: u32) -> (r: Result<
    u32,
    Error,
>)
    ensures
        r == challenge_reply_spec(frame@, cookie@, our_challenge),
{
    if frame.len() != 21 {
        return Err(Error::Io(IoKind::InvalidData));
    }
    if frame[0] != 0x72 {
        return Err(Error::Io(IoKind::InvalidData));
    }
    let expected = challenge_digest(cookie, our_challenge);
    let mut theirs: Vec<u8> = Vec::new();
    let mut i: usize = 5;
    while i < 21
        invariant
            5 <= i <= 21,
            frame@.len() == 21,
            theirs@ == frame@.subrange(5, i as int),
        decreases 21 - i,
    {
        theirs.push(frame[i]);
        i = i + 1;
        proof {
            assert(theirs@ =~= frame@.subrange(5, i as int));
        }
    }
    if !bytes_eq(theirs.as_slice(), expected.as_slice()) {
        return Err(Error::Io(IoKind::InvalidData));
    }
    Ok(
        (((frame[1] as u32) * 256 + (frame[2] as u32)) * 256 + (frame[3] as u32)) * 256 + (
        frame[4] as u32),
    )
}

/// The acknowledgement frame: a u16 length, the tag `'a'`, and the
/// MD5 of the cookie and the peer's challenge.
pub open spec fn challenge_ack_bytes(cookie: Seq<u8>, their_challenge: u32) -> Seq<u8> {
    be16(17) + seq![0x61u8] + md5_of(digest_input(cookie, their_challenge))
}

/// Build the acknowledgement frame answering the peer's challenge.
pub fn send_challenge_ack(cookie: &[u8], their_challenge: u32) -> (r: Vec<u8>)
    ensures
        r@ == challenge_ack_bytes(cookie@, their_challenge),
{
    let d = challenge_digest(cookie, their_challenge);
    let mut w = crate::io::Writer::new();
    let _ = w.write_u16(17);
    let _ = w.write_u8(0x61);
    let _ = w.write_all(d.as_slice());
    let v = w.into_vec();
    proof {
        assert(v@ =~= challenge_ack_bytes(cookie@, their_challenge));
    }
    v
}

} // verus!
