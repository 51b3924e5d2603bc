//! A small HTTP-style server core: a line-oriented request parser, a
//! worker-pool model with graceful shutdown, and responders that turn a
//! request into response bytes. The surrounding program supplies the
//! sockets, threads and files; everything here computes on plain values.
use vstd::prelude::*;

pub mod pairs;
pub mod pool;
pub mod request;
pub mod response;
pub mod text;

verus! {

/// Server configuration handed in by the surrounding program.
pub struct Config {
    /// Worker-pool size.
    pub limit: usize,
    /// TCP port to bind.
    pub port: u32,
    /// Address to bind.
    pub server: String,
}

/// The assembled application: its configuration, around which the
/// surrounding program builds the listener loop.
pub struct Application {
    pub config: Config,
}

} // verus!
