//! A memcached-style in-memory key-value cache library: a compact binary
//! framing protocol for request/response messages, a byte-budgeted LRU
//! container, a sharded lock-protected cache over it, and the
//! per-connection dispatch that glues them together.

pub mod bytesized;
pub mod cache;
pub mod cli;
pub mod client;
pub mod endian;
pub mod err;
pub mod kind;
mod lru_raw;
pub mod mem_lru;
pub mod msg;
pub mod parser;
pub mod serve;
pub mod socket;
pub mod value;

pub use bytesized::ByteSized;
pub use cache::{Cache, CacheCfg};
pub use err::{Error, ParseError};
pub use mem_lru::{MemLru, MemLruBuilder};
pub use msg::{Msg, Request, Response};
pub use parser::{Parser, HEADER_SIZE};
pub use serve::{response_to, ServerSideError, ServerSocket};
pub use socket::Socket;
pub use value::Value;
