//! An Erlang-compatible C-node core: the External Term Format codec,
//! the distribution handshake, the framed message loop, and the EPMD
//! client requests, specified and verified down to the byte level.

pub mod connect;
pub mod consts;
pub mod de;
pub mod epmd;
pub mod error;
pub mod handle;
pub mod io;
pub mod laws;
pub mod md5;
pub mod port;
pub mod ser;
pub mod term;
pub mod utf8;
