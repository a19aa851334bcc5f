//! Session-multiplexing bridge between a game client and external UCI chess
//! engines, with an offline opening book.
//!
//! The crate holds the verified core: the length-prefixed frame codec, the
//! opening-book decoder and weighted move selection, the engine
//! search-progress parser, and the session controller's decision logic.
//! Process I/O (the byte streams and the engine subprocesses) lives outside.

pub mod codec;
pub mod controller;
pub mod info_parser;
pub mod messages;
pub mod opening;
