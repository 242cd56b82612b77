//! Wire constants of the External Term Format, the distribution
//! protocol, and the EPMD protocol.
//!
//! See the Erlang documentation on `erl_ext_dist` and
//! `erl_dist_protocol` for the meaning of each tag.

use vstd::prelude::*;

verus! {

// Term tags.
pub const ERL_SMALL_INTEGER_EXT: u8 = 0x61;
pub const ERL_INTEGER_EXT: u8 = 0x62;
pub const NEW_FLOAT_EXT: u8 = 0x46;
pub const ERL_ATOM_EXT: u8 = 0x64;
pub const ERL_ATOM_UTF8_EXT: u8 = 0x76;
pub const ERL_SMALL_ATOM_UTF8_EXT: u8 = 0x77;
pub const ERL_NEW_REFERENCE_EXT: u8 = 0x72;
pub const ERL_NEWER_REFERENCE_EXT: u8 = 0x5a;
pub const ERL_PORT_EXT: u8 = 0x66;
pub const ERL_NEW_PORT_EXT: u8 = 0x59;
pub const ERL_V4_PORT_EXT: u8 = 0x78;
pub const ERL_PID_EXT: u8 = 0x67;
pub const ERL_NEW_PID_EXT: u8 = 0x58;
pub const ERL_SMALL_TUPLE_EXT: u8 = 0x68;
pub const ERL_LARGE_TUPLE_EXT: u8 = 0x69;
pub const ERL_NIL_EXT: u8 = 0x6a;
pub const ERL_STRING_EXT: u8 = 0x6b;
pub const ERL_LIST_EXT: u8 = 0x6c;
pub const ERL_BINARY_EXT: u8 = 0x6d;
pub const ERL_SMALL_BIG_EXT: u8 = 0x6e;
pub const ERL_MAP_EXT: u8 = 0x74;

// Control-message opcodes (the first element of a control tuple).
pub const ERL_SEND: u8 = 0x02;
pub const ERL_EXIT: u8 = 0x03;
pub const ERL_REG_SEND: u8 = 0x06;
pub const ERL_SEND_TT: u8 = 0x0c;
pub const ERL_EXIT_TT: u8 = 0x0d;
pub const ERL_REG_SEND_TT: u8 = 0x10;

// Framing bytes of the distribution channel.
pub const ERL_PASS_THROUGH: u8 = 0x70;
pub const ERL_VERSION_MAGIC: u8 = 0x83;

// Size bounds of the protocol.
pub const MAXATOMLEN: usize = 256;
pub const MAXATOMLEN_UTF8: usize = 1021;
pub const MAXNODELEN: usize = 128;
pub const EI_MAXALIVELEN: usize = 63;
pub const EI_MAX_COOKIE_SIZE: usize = 512;

// The integer range that `ERL_INTEGER_EXT` is used for when encoding:
// a 27-bit signed magnitude, following erl_interface.
pub const I27_MIN: i32 = -134217728;
pub const I27_MAX: i32 = 134217727;

// Capability flags of the distribution handshake.
pub const DFLAG_EXTENDED_REFERENCES: u32 = 0x4;
pub const DFLAG_DIST_MONITOR: u32 = 0x8;
pub const DFLAG_FUN_TAGS: u32 = 0x10;
pub const DFLAG_NEW_FUN_TAGS: u32 = 0x80;
pub const DFLAG_EXTENDED_PIDS_PORTS: u32 = 0x100;
pub const DFLAG_NEW_FLOATS: u32 = 0x800;
pub const DFLAG_SMALL_ATOM_TAGS: u32 = 0x4000;
pub const DFLAG_UTF8_ATOMS: u32 = 0x10000;
pub const DFLAG_MAP_TAG: u32 = 0x20000;
pub const DFLAG_BIG_CREATION: u32 = 0x40000;

// EPMD request and response bytes.
pub const EPMD_PORT: u16 = 4369;
pub const EI_DIST_HIGH: u16 = 6;
pub const EI_DIST_LOW: u16 = 5;
pub const EI_MYPROTO: u8 = 0;
pub const EI_EPMD_ALIVE2_REQ: u8 = 0x78;
pub const EI_EPMD_ALIVE2_RESP: u8 = 0x79;
pub const EI_EPMD_PORT2_REQ: u8 = 0x7a;
pub const EI_EPMD_PORT2_RESP: u8 = 0x77;
pub const EI_HIDDEN_NODE: u8 = 0x68;
pub const EI_SUCCESS: u8 = 0;

} // verus!
