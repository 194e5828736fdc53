//! The configuration a server is started with: where to bind and how many
//! worker threads to run.
use vstd::prelude::*;

verus! {

/// Where a server listens and how many workers it runs.
#[derive(Debug)]
pub struct ServerConfig {
    pub address: String,
    pub port: u16,
    pub thread_count: usize,
}

impl ServerConfig {
    /// A configuration for the given address and port, with the default
    /// worker count of four.
    pub fn new(address: &str, port: u16) -> (r: ServerConfig)
        ensures
            r.address@ == address@,
            r.port == port,
            r.thread_count == 4,
    {
        ServerConfig { address: address.to_owned(), port, thread_count: 4 }
    }

    /// The same configuration with the worker count replaced.
    pub fn threads(self, count: usize) -> (r: ServerConfig)
        ensures
            r == (ServerConfig { thread_count: count, ..self }),
    {
        ServerConfig { thread_count: count, ..self }
    }
}

impl Default for ServerConfig {
    /// The local loopback address on port 8080, with four workers.
    fn default() -> (r: ServerConfig)
        ensures
            r.address@ == "127.0.0.1"@,
            r.port == 8080,
            r.thread_count == 4,
    {
        ServerConfig::new("127.0.0.1", 8080)
    }
}

} // verus!
