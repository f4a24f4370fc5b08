//! The address of the editor bridge.

use vstd::prelude::*;

verus! {

/// A client for an editor listening on a Unix socket.
#[derive(Debug, Clone)]
pub struct NeovimClient {
    socket_path: String,
}

impl NeovimClient {
    pub closed spec fn path(&self) -> Seq<char> {
        self.socket_path@
    }

    pub fn new(socket_path: &str) -> (r: NeovimClient)
        ensures
            r.path() == socket_path@,
    {
        NeovimClient { socket_path: socket_path.to_owned() }
    }

    /// The socket the editor listens on.
    pub fn socket_path(&self) -> (r: &String)
        ensures
            r@ == self.path(),
    {
        &self.socket_path
    }
}

} // verus!
