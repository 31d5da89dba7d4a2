//! Line-oriented command/response framing for modem-style command channels.
//!
//! The crate turns a raw byte stream into discrete text lines while tracking
//! two sticky completion flags (`OK` / `ERROR`), and decides each step of a
//! single command's poll loop. The caller owns the transport: it sends the
//! framed command, reads chunks, and hands every read outcome to [`executor::poll_step`].

pub mod executor;
pub mod framer;
pub mod keywords;
pub mod model;
