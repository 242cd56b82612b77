//! The term model: the closed set of term kinds the protocol speaks,
//! their well-formedness, and the exact bytes each one encodes to.
//!
//! Each executable type has a specification mirror (`AtomV`, `PidV`,
//! ...) reached through `@`, with byte vectors abstracted to
//! sequences. The `*_bytes` specification functions over the mirrors
//! are the single written form of the wire format: the encoder
//! promises to emit exactly these bytes, the decoder's specification
//! is stated over the same functions, and byte-exact round trips are
//! provable facts.
//!
//! Text payloads (atom names, strings, exit reasons) are carried as
//! raw byte vectors; the decoder admits them only when they are
//! well-formed UTF-8 (see `utf8`).

use vstd::prelude::*;

use crate::consts::{
    ERL_ATOM_EXT, ERL_ATOM_UTF8_EXT, ERL_BINARY_EXT, ERL_EXIT, ERL_EXIT_TT, ERL_INTEGER_EXT,
    ERL_LARGE_TUPLE_EXT, ERL_LIST_EXT, ERL_MAP_EXT, ERL_NEWER_REFERENCE_EXT, ERL_NEW_PID_EXT,
    ERL_NEW_PORT_EXT, ERL_NEW_REFERENCE_EXT, ERL_NIL_EXT, ERL_PID_EXT, ERL_REG_SEND,
    ERL_REG_SEND_TT, ERL_SEND, ERL_SEND_TT, ERL_SMALL_ATOM_UTF8_EXT, ERL_SMALL_BIG_EXT,
    ERL_SMALL_INTEGER_EXT, ERL_SMALL_TUPLE_EXT, ERL_STRING_EXT, ERL_V4_PORT_EXT, I27_MAX, I27_MIN,
    MAXATOMLEN, MAXATOMLEN_UTF8, NEW_FLOAT_EXT,
};
use crate::io::{be16, be32, be64, rep32};
use crate::utf8::is_utf8;

verus! {

/// An atom, in one of its three wire encodings. The encoding survives
/// a round trip: decoding records which tag was seen.
#[derive(Debug, Clone, PartialEq, Eq)]
pub enum Atom {
    /// `ATOM_EXT` (0x64): Latin-1, length prefixed with a u16.
    Latin1(Vec<u8>),
    /// `SMALL_ATOM_UTF8_EXT` (0x77): UTF-8, length prefixed with a u8.
    UTF8Small(Vec<u8>),
    /// `ATOM_UTF8_EXT` (0x76): UTF-8, length prefixed with a u16.
    UTF8(Vec<u8>),
}

/// The specification mirror of `Atom`.
pub enum AtomV {
    Latin1(Seq<u8>),
    UTF8Small(Seq<u8>),
    UTF8(Seq<u8>),
}

impl View for Atom {
    type V = AtomV;

    open spec fn view(&self) -> AtomV {
        match self {
            Atom::Latin1(s) => AtomV::Latin1(s@),
            Atom::UTF8Small(s) => AtomV::UTF8Small(s@),
            Atom::UTF8(s) => AtomV::UTF8(s@),
        }
    }
}

/// A process identifier.
#[derive(Debug, Clone, PartialEq, Eq)]
pub struct Pid {
    pub node: Atom,
    pub num: u32,
    pub serial: u32,
    pub creation: u32,
}

/// The specification mirror of `Pid`.
pub struct PidV {
    pub node: AtomV,
    pub num: u32,
    pub serial: u32,
    pub creation: u32,
}

impl View for Pid {
    type V = PidV;

    open spec fn view(&self) -> PidV {
        PidV { node: self.node@, num: self.num, serial: self.serial, creation: self.creation }
    }
}

/// A port identifier, in its two encodable shapes. The legacy
/// `PORT_EXT` form is accepted on decode and mapped to `NewPort`.
#[derive(Debug, Clone, PartialEq, Eq)]
pub enum Port {
    NewPort { node: Atom, id: u32, creation: u32 },
    V4Port { node: Atom, id: u64, creation: u32 },
}

/// The specification mirror of `Port`.
pub enum PortV {
    NewPort { node: AtomV, id: u32, creation: u32 },
    V4Port { node: AtomV, id: u64, creation: u32 },
}

impl View for Port {
    type V = PortV;

    open spec fn view(&self) -> PortV {
        match self {
            Port::NewPort { node, id, creation } => PortV::NewPort {
                node: node@,
                id: *id,
                creation: *creation,
            },
            Port::V4Port { node, id, creation } => PortV::V4Port {
                node: node@,
                id: *id,
                creation: *creation,
            },
        }
    }
}

/// A reference carrying up to five 32-bit words.
#[derive(Debug, Clone, PartialEq, Eq)]
pub struct Ref {
    /// How many words follow; 0 through 5.
    pub len: i16,
    pub node: Atom,
    pub creation: u32,
    /// The words; `None` exactly when `len` is 0.
    pub n: Option<Vec<u32>>,
}

/// The specification mirror of `Ref`.
pub struct RefV {
    pub len: i16,
    pub node: AtomV,
    pub creation: u32,
    pub n: Option<Seq<u32>>,
}

impl View for Ref {
    type V = RefV;

    open spec fn view(&self) -> RefV {
        RefV {
            len: self.len,
            node: self.node@,
            creation: self.creation,
            n: match self.n {
                None => None,
                Some(ws) => Some(ws@),
            },
        }
    }
}

/// A seq-trace token: flags, label, serial, from, prev.
#[derive(Debug, Clone, PartialEq, Eq)]
pub struct Trace(pub i64, pub i64, pub i64, pub Pid, pub i64);

/// The specification mirror of `Trace`.
pub struct TraceV(pub i64, pub i64, pub i64, pub PidV, pub i64);

impl View for Trace {
    type V = TraceV;

    open spec fn view(&self) -> TraceV {
        TraceV(self.0, self.1, self.2, self.3@, self.4)
    }
}

/// A control message: the six opcodes this node speaks.
#[derive(Debug, Clone, PartialEq, Eq)]
pub enum Msg {
    Send { cookie: Atom, to: Pid },
    SendTT { cookie: Atom, to: Pid, token: Trace },
    RegSend { from: Pid, cookie: Atom, toname: Atom },
    RegSendTT { from: Pid, cookie: Atom, toname: Atom, token: Trace },
    Exit { from: Pid, to: Pid, reason: Vec<u8> },
    ExitTT { from: Pid, to: Pid, token: Trace, reason: Vec<u8> },
}

/// The specification mirror of `Msg`.
pub enum MsgV {
    Send { cookie: AtomV, to: PidV },
    SendTT { cookie: AtomV, to: PidV, token: TraceV },
    RegSend { from: PidV, cookie: AtomV, toname: AtomV },
    RegSendTT { from: PidV, cookie: AtomV, toname: AtomV, token: TraceV },
    Exit { from: PidV, to: PidV, reason: Seq<u8> },
    ExitTT { from: PidV, to: PidV, token: TraceV, reason: Seq<u8> },
}

impl View for Msg {
    type V = MsgV;

    open spec fn view(&self) -> MsgV {
        match self {
            Msg::Send { cookie, to } => MsgV::Send { cookie: cookie@, to: to@ },
            Msg::SendTT { cookie, to, token } => MsgV::SendTT {
                cookie: cookie@,
                to: to@,
                token: token@,
            },
            Msg::RegSend { from, cookie, toname } => MsgV::RegSend {
                from: from@,
                cookie: cookie@,
                toname: toname@,
            },
            Msg::RegSendTT { from, cookie, toname, token } => MsgV::RegSendTT {
                from: from@,
                cookie: cookie@,
                toname: toname@,
                token: token@,
            },
            Msg::Exit { from, to, reason } => MsgV::Exit { from: from@, to: to@, reason: reason@ },
            Msg::ExitTT { from, to, token, reason } => MsgV::ExitTT {
                from: from@,
                to: to@,
                token: token@,
                reason: reason@,
            },
        }
    }
}

// --- Atoms --------------------------------------------------------------

/// The name bytes an atom carries.
pub open spec fn atom_data(a: AtomV) -> Seq<u8> {
    match a {
        AtomV::Latin1(s) => s,
        AtomV::UTF8Small(s) => s,
        AtomV::UTF8(s) => s,
    }
}

/// The tag byte an atom encodes with.
pub open spec fn atom_tag(a: AtomV) -> u8 {
    match a {
        AtomV::Latin1(_) => ERL_ATOM_EXT,
        AtomV::UTF8Small(_) => ERL_SMALL_ATOM_UTF8_EXT,
        AtomV::UTF8(_) => ERL_ATOM_UTF8_EXT,
    }
}

/// The protocol's length bound for each atom encoding; encoding an
/// atom beyond its bound fails with `Range`.
pub open spec fn atom_len_ok(a: AtomV) -> bool {
    match a {
        AtomV::Latin1(s) => s.len() < MAXATOMLEN,
        AtomV::UTF8Small(s) => s.len() < 256,
        AtomV::UTF8(s) => s.len() < MAXATOMLEN_UTF8,
    }
}

/// A well-formed atom: within its length bound and valid UTF-8.
/// Decoding only produces such atoms.
pub open spec fn atom_wf(a: AtomV) -> bool {
    atom_len_ok(a) && is_utf8(atom_data(a))
}

/// The wire bytes of an atom (meaningful when `atom_len_ok`).
pub open spec fn atom_bytes(a: AtomV) -> Seq<u8> {
    match a {
        AtomV::Latin1(s) => seq![ERL_ATOM_EXT] + be16(s.len() as u16) + s,
        AtomV::UTF8Small(s) => seq![ERL_SMALL_ATOM_UTF8_EXT, s.len() as u8] + s,
        AtomV::UTF8(s) => seq![ERL_ATOM_UTF8_EXT] + be16(s.len() as u16) + s,
    }
}

// --- Integers -----------------------------------------------------------

/// The minimal little-endian bytes of a magnitude: no trailing zero
/// byte, and empty exactly for zero.
pub open spec fn le_min_bytes(v: u64) -> Seq<u8>
    decreases v,
{
    if v == 0 {
        seq![]
    } else {
        seq![(v % 256) as u8] + le_min_bytes(v / 256)
    }
}

/// The value of little-endian magnitude bytes.
pub open spec fn le_val(s: Seq<u8>) -> int
    decreases s.len(),
{
    if s.len() == 0 {
        0
    } else {
        s[0] + 256 * le_val(s.skip(1))
    }
}

/// A `SMALL_BIG_EXT` frame: tag, magnitude byte count, sign byte,
/// then the minimal little-endian magnitude.
pub open spec fn small_big_bytes(sign: u8, mag: u64) -> Seq<u8> {
    seq![ERL_SMALL_BIG_EXT, le_min_bytes(mag).len() as u8, sign] + le_min_bytes(mag)
}

/// The encoding of an unsigned integer: the smallest applicable tag.
pub open spec fn uint_bytes(v: u64) -> Seq<u8> {
    if v <= 255 {
        seq![ERL_SMALL_INTEGER_EXT, v as u8]
    } else if v <= I27_MAX {
        seq![ERL_INTEGER_EXT] + be32(v as u32)
    } else {
        small_big_bytes(0, v)
    }
}

/// The encoding of a signed integer (meaningful for `v != i64::MIN`,
/// whose magnitude the small-big form cannot hold).
pub open spec fn sint_bytes(v: i64) -> Seq<u8> {
    if 0 <= v && v <= 255 {
        seq![ERL_SMALL_INTEGER_EXT, v as u8]
    } else if I27_MIN <= v && v <= I27_MAX {
        seq![ERL_INTEGER_EXT] + be32(rep32(v as i32))
    } else if v > 0 {
        small_big_bytes(0, v as u64)
    } else {
        small_big_bytes(1, (-v) as u64)
    }
}

// --- Facts about the minimal little-endian magnitude --------------------

/// 256 to the power `k`.
pub open spec fn pow256(k: nat) -> int
    decreases k,
{
    if k == 0 {
        1
    } else {
        256 * pow256((k - 1) as nat)
    }
}

/// A magnitude below `pow256(k)` needs at most `k` bytes.
pub proof fn lemma_le_min_bytes_len(v: u64, k: nat)
    requires
        v < pow256(k),
    ensures
        le_min_bytes(v).len() <= k,
    decreases k,
{
    if v > 0 {
        assert(pow256(k) > 1);
        assert(k > 0) by {
            if k == 0 {
                assert(pow256(0) == 1);
            }
        }
        assert(pow256(k) == 256 * pow256((k - 1) as nat));
        assert(v / 256 < pow256((k - 1) as nat)) by (nonlinear_arith)
            requires
                v < 256 * pow256((k - 1) as nat),
                v >= 0,
        ;
        lemma_le_min_bytes_len(v / 256, (k - 1) as nat);
    }
}

/// Every `u64` magnitude fits in eight bytes.
pub proof fn lemma_le_min_bytes_len8(v: u64)
    ensures
        le_min_bytes(v).len() <= 8,
{
    reveal_with_fuel(pow256, 9);
    assert(pow256(8) == 0x1_0000_0000_0000_0000);
    lemma_le_min_bytes_len(v, 8);
}

/// `pow256` is monotone in its exponent.
pub proof fn lemma_pow256_le(j: nat, k: nat)
    requires
        j <= k,
    ensures
        pow256(j) <= pow256(k),
    decreases k,
{
    if j < k {
        lemma_pow256_le(j, (k - 1) as nat);
        assert(pow256(k) == 256 * pow256((k - 1) as nat));
        assert(pow256((k - 1) as nat) >= 1) by {
            lemma_pow256_pos((k - 1) as nat);
        }
    }
}

/// `pow256` is positive.
pub proof fn lemma_pow256_pos(k: nat)
    ensures
        pow256(k) >= 1,
    decreases k,
{
    if k > 0 {
        lemma_pow256_pos((k - 1) as nat);
    }
}

/// The value of a magnitude is bounded by 256 to its byte count.
pub proof fn lemma_le_val_bound(s: Seq<u8>)
    ensures
        0 <= le_val(s) < pow256(s.len()),
    decreases s.len(),
{
    if s.len() == 0 {
        assert(pow256(0) == 1);
    } else {
        lemma_le_val_bound(s.skip(1));
        assert(pow256(s.len()) == 256 * pow256((s.len() - 1) as nat));
    }
}

// --- Strings, binaries, booleans, floats --------------------------------

/// The encoding of a string: `NIL_EXT` when empty, else `STRING_EXT`
/// (meaningful for lengths up to `u16::MAX`).
pub open spec fn str_bytes(s: Seq<u8>) -> Seq<u8> {
    if s.len() == 0 {
        seq![ERL_NIL_EXT]
    } else {
        seq![ERL_STRING_EXT] + be16(s.len() as u16) + s
    }
}

/// The encoding of an opaque binary (meaningful for lengths up to
/// `u32::MAX`).
pub open spec fn binary_bytes(s: Seq<u8>) -> Seq<u8> {
    seq![ERL_BINARY_EXT] + be32(s.len() as u32) + s
}

/// Booleans travel as the small UTF-8 atoms `true` and `false`.
pub open spec fn bool_bytes(v: bool) -> Seq<u8> {
    if v {
        seq![ERL_SMALL_ATOM_UTF8_EXT, 4u8, 0x74u8, 0x72u8, 0x75u8, 0x65u8]
    } else {
        seq![ERL_SMALL_ATOM_UTF8_EXT, 5u8, 0x66u8, 0x61u8, 0x6cu8, 0x73u8, 0x65u8]
    }
}

/// The encoding of a 64-bit float, by its IEEE-754 bit pattern.
pub open spec fn float_bytes(bits: u64) -> Seq<u8> {
    seq![NEW_FLOAT_EXT] + be64(bits)
}

// --- Containers ---------------------------------------------------------

/// The header of a tuple: small form up to arity 255, large beyond.
pub open spec fn tuple_header_bytes(arity: usize) -> Seq<u8> {
    if arity <= 255 {
        seq![ERL_SMALL_TUPLE_EXT, arity as u8]
    } else {
        seq![ERL_LARGE_TUPLE_EXT] + be32(arity as u32)
    }
}

/// The header of a non-empty list (its elements and the trailing
/// `NIL_EXT` follow); an empty list is `NIL_EXT` alone.
pub open spec fn list_header_bytes(n: u32) -> Seq<u8> {
    seq![ERL_LIST_EXT] + be32(n)
}

/// The header of a map of `n` key-value pairs.
pub open spec fn map_header_bytes(n: u32) -> Seq<u8> {
    seq![ERL_MAP_EXT] + be32(n)
}

// --- Pids, ports, refs --------------------------------------------------

/// Whether a pid can be encoded: its node atom is within bounds.
pub open spec fn pid_enc_ok(p: PidV) -> bool {
    atom_len_ok(p.node)
}

/// A well-formed pid, as decoding produces: node well-formed, and the
/// legacy fields masked whenever the legacy tag would be used.
pub open spec fn pid_wf(p: PidV) -> bool {
    atom_wf(p.node) && (p.creation <= 3 ==> p.num < 0x8000 && p.serial < 0x2000)
}

/// The wire bytes of a pid. A creation up to 3 selects the legacy
/// `PID_EXT` form, whose fields are masked; above 3 the `NEW_PID_EXT`
/// form carries all fields in full width.
pub open spec fn pid_bytes(p: PidV) -> Seq<u8> {
    if p.creation <= 3 {
        seq![ERL_PID_EXT] + atom_bytes(p.node) + be32((p.num % 0x8000) as u32)
            + be32((p.serial % 0x2000) as u32) + seq![(p.creation % 4) as u8]
    } else {
        seq![ERL_NEW_PID_EXT] + atom_bytes(p.node) + be32(p.num) + be32(p.serial)
            + be32(p.creation)
    }
}

pub open spec fn port_node(p: PortV) -> AtomV {
    match p {
        PortV::NewPort { node, .. } => node,
        PortV::V4Port { node, .. } => node,
    }
}

/// Whether a port can be encoded.
pub open spec fn port_enc_ok(p: PortV) -> bool {
    atom_len_ok(port_node(p))
}

/// A well-formed port, as decoding produces it.
pub open spec fn port_wf(p: PortV) -> bool {
    atom_wf(port_node(p))
}

/// The wire bytes of a port: `NEW_PORT_EXT` or `V4_PORT_EXT` by shape.
/// The legacy `PORT_EXT` form is never emitted.
pub open spec fn port_bytes(p: PortV) -> Seq<u8> {
    match p {
        PortV::NewPort { node, id, creation } => seq![ERL_NEW_PORT_EXT] + atom_bytes(node)
            + be32(id) + be32(creation),
        PortV::V4Port { node, id, creation } => seq![ERL_V4_PORT_EXT] + atom_bytes(node)
            + be64(id) + be32(creation),
    }
}

/// The concatenated big-endian words of a reference.
pub open spec fn words_bytes(ws: Seq<u32>) -> Seq<u8>
    decreases ws.len(),
{
    if ws.len() == 0 {
        seq![]
    } else {
        be32(ws[0]) + words_bytes(ws.skip(1))
    }
}

/// The words a reference carries.
pub open spec fn ref_words(r: RefV) -> Seq<u32> {
    match r.n {
        None => seq![],
        Some(ws) => ws,
    }
}

/// Whether a reference can be encoded: the word count is 0 through 5
/// and matches the stored words (absent exactly when 0), the node is
/// within bounds, and the legacy form (creation up to 3) carries at
/// most 3 words.
pub open spec fn ref_enc_ok(r: RefV) -> bool {
    &&& 0 <= r.len <= 5
    &&& (r.len == 0 <==> r.n is None)
    &&& ref_words(r).len() == r.len
    &&& atom_len_ok(r.node)
    &&& (r.creation <= 3 ==> r.len <= 3)
}

/// A well-formed reference, as decoding produces it.
pub open spec fn ref_wf(r: RefV) -> bool {
    &&& 0 <= r.len <= 5
    &&& (r.len == 0 <==> r.n is None)
    &&& ref_words(r).len() == r.len
    &&& atom_wf(r.node)
    &&& (r.creation <= 3 ==> r.len <= 3)
}

/// The wire bytes of a reference. A creation up to 3 selects the
/// legacy `NEW_REFERENCE_EXT` form with a one-byte creation; above 3
/// the `NEWER_REFERENCE_EXT` form carries a four-byte creation.
pub open spec fn ref_bytes(r: RefV) -> Seq<u8> {
    if r.creation <= 3 {
        seq![ERL_NEW_REFERENCE_EXT] + be16(r.len as u16) + atom_bytes(r.node)
            + seq![(r.creation % 4) as u8] + words_bytes(ref_words(r))
    } else {
        seq![ERL_NEWER_REFERENCE_EXT] + be16(r.len as u16) + atom_bytes(r.node)
            + be32(r.creation) + words_bytes(ref_words(r))
    }
}

// --- Trace tokens and control messages ----------------------------------

/// Whether a trace token can be encoded.
pub open spec fn trace_enc_ok(t: TraceV) -> bool {
    &&& t.0 != i64::MIN
    &&& t.1 != i64::MIN
    &&& t.2 != i64::MIN
    &&& t.4 != i64::MIN
    &&& pid_enc_ok(t.3)
}

/// A well-formed trace token, as decoding produces it.
pub open spec fn trace_wf(t: TraceV) -> bool {
    &&& t.0 != i64::MIN
    &&& t.1 != i64::MIN
    &&& t.2 != i64::MIN
    &&& t.4 != i64::MIN
    &&& pid_wf(t.3)
}

/// The wire bytes of a trace token: a 5-tuple in field order.
pub open spec fn trace_bytes(t: TraceV) -> Seq<u8> {
    seq![ERL_SMALL_TUPLE_EXT, 5u8] + sint_bytes(t.0) + sint_bytes(t.1) + sint_bytes(t.2)
        + pid_bytes(t.3) + sint_bytes(t.4)
}

/// The opcode of a control message.
pub open spec fn msg_op(m: MsgV) -> u8 {
    match m {
        MsgV::Send { .. } => ERL_SEND,
        MsgV::SendTT { .. } => ERL_SEND_TT,
        MsgV::RegSend { .. } => ERL_REG_SEND,
        MsgV::RegSendTT { .. } => ERL_REG_SEND_TT,
        MsgV::Exit { .. } => ERL_EXIT,
        MsgV::ExitTT { .. } => ERL_EXIT_TT,
    }
}

/// The tuple arity of a control message, opcode included.
pub open spec fn msg_arity(m: MsgV) -> u8 {
    match m {
        MsgV::Send { .. } => 3,
        MsgV::SendTT { .. } => 4,
        MsgV::RegSend { .. } => 4,
        MsgV::RegSendTT { .. } => 5,
        MsgV::Exit { .. } => 4,
        MsgV::ExitTT { .. } => 5,
    }
}

/// Whether a control message can be encoded.
pub open spec fn msg_enc_ok(m: MsgV) -> bool {
    match m {
        MsgV::Send { cookie, to } => atom_len_ok(cookie) && pid_enc_ok(to),
        MsgV::SendTT { cookie, to, token } => atom_len_ok(cookie) && pid_enc_ok(to)
            && trace_enc_ok(token),
        MsgV::RegSend { from, cookie, toname } => pid_enc_ok(from) && atom_len_ok(cookie)
            && atom_len_ok(toname),
        MsgV::RegSendTT { from, cookie, toname, token } => pid_enc_ok(from) && atom_len_ok(cookie)
            && atom_len_ok(toname) && trace_enc_ok(token),
        MsgV::Exit { from, to, reason } => pid_enc_ok(from) && pid_enc_ok(to) && reason.len()
            <= 65535,
        MsgV::ExitTT { from, to, token, reason } => pid_enc_ok(from) && pid_enc_ok(to)
            && trace_enc_ok(token) && reason.len() <= 65535,
    }
}

/// A well-formed control message, as decoding produces it.
pub open spec fn msg_wf(m: MsgV) -> bool {
    match m {
        MsgV::Send { cookie, to } => atom_wf(cookie) && pid_wf(to),
        MsgV::SendTT { cookie, to, token } => atom_wf(cookie) && pid_wf(to) && trace_wf(token),
        MsgV::RegSend { from, cookie, toname } => pid_wf(from) && atom_wf(cookie)
            && atom_wf(toname),
        MsgV::RegSendTT { from, cookie, toname, token } => pid_wf(from) && atom_wf(cookie)
            && atom_wf(toname) && trace_wf(token),
        MsgV::Exit { from, to, reason } => pid_wf(from) && pid_wf(to) && reason.len() <= 65535
            && is_utf8(reason),
        MsgV::ExitTT { from, to, token, reason } => pid_wf(from) && pid_wf(to) && trace_wf(token)
            && reason.len() <= 65535 && is_utf8(reason),
    }
}

/// The wire bytes of a control message: a small tuple whose first
/// element is the opcode as a small integer, then the fields in
/// declaration order.
pub open spec fn msg_bytes(m: MsgV) -> Seq<u8> {
    seq![ERL_SMALL_TUPLE_EXT, msg_arity(m), ERL_SMALL_INTEGER_EXT, msg_op(m)] + match m {
        MsgV::Send { cookie, to } => atom_bytes(cookie) + pid_bytes(to),
        MsgV::SendTT { cookie, to, token } => atom_bytes(cookie) + pid_bytes(to)
            + trace_bytes(token),
        MsgV::RegSend { from, cookie, toname } => pid_bytes(from) + atom_bytes(cookie)
            + atom_bytes(toname),
        MsgV::RegSendTT { from, cookie, toname, token } => pid_bytes(from) + atom_bytes(cookie)
            + atom_bytes(toname) + trace_bytes(token),
        MsgV::Exit { from, to, reason } => pid_bytes(from) + pid_bytes(to) + str_bytes(reason),
        MsgV::ExitTT { from, to, token, reason } => pid_bytes(from) + pid_bytes(to)
            + trace_bytes(token) + str_bytes(reason),
    }
}

} // verus!
