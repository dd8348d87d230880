//! A verified core for streaming remote content into a local, seekable cache.
//!
//! The library holds the rules of the stream: how the content length is
//! described, how bytes are laid out in a bounded circular buffer, which part of
//! the stream has been downloaded, when a read or a seek may proceed, and how
//! inputs are routed to registered handlers.
use vstd::prelude::*;

pub mod async_read;
pub mod download;
pub mod http;
pub mod open_dal;
pub mod process;
pub mod registry;
pub mod settings;
pub mod source;
pub mod storage;
pub mod text;

verus! {

} // verus!
