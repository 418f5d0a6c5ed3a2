//! The server's settings.

use vstd::prelude::*;

verus! {

/// The number of workers that the server runs.
pub const POOL_SIZE: usize = 4;

/// A server: the address it binds to and the directory it serves.
pub struct WebServer {
    address: String,
    directory: String,
}

impl WebServer {
    /// The address to bind to, such as `127.0.0.1:8080`.
    pub closed spec fn spec_address(&self) -> Seq<char> {
        self.address@
    }

    /// The directory that files are served from.
    pub closed spec fn spec_directory(&self) -> Seq<char> {
        self.directory@
    }

    /// A server for `address` that serves `directory`.
    pub fn new(address: String, directory: String) -> (server: Self)
        ensures
            server.spec_address() == address@,
            server.spec_directory() == directory@,
    {
        WebServer { address, directory }
    }

    /// The address to bind to.
    pub fn address(&self) -> (a: &str)
        ensures
            a@ == self.spec_address(),
    {
        self.address.as_str()
    }

    /// The directory that files are served from.
    pub fn directory(&self) -> (d: &str)
        ensures
            d@ == self.spec_directory(),
    {
        self.directory.as_str()
    }
}

} // verus!
