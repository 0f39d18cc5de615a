//! The handle by which the relay knows an open connection.

use vstd::prelude::*;

verus! {

/// Identifies one open connection of the transport.
///
/// The two numbers are the ones the transport itself uses to tell its
/// connections apart: the slot of the connection in the event loop and the
/// serial number the connection was given when it was accepted.
#[derive(Clone, Copy, Debug, PartialEq, Eq, Structural, Hash)]
pub struct Connection {
    pub token: usize,
    pub id: u32,
}

impl Connection {
    /// The handle of the connection in slot `token` with serial number `id`.
    pub fn new(token: usize, id: u32) -> (c: Connection)
        ensures
            c == (Connection { token, id }),
    {
        Connection { token, id }
    }
}

} // verus!
