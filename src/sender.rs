//! The handle through which one connection is addressed.
use vstd::prelude::*;

verus! {

/// Identifies one registered connection in the event loop.
#[derive(Clone, Copy, Debug, PartialEq, Eq, Structural)]
pub struct Token(pub usize);

/// A cloneable handle bound to exactly one connection.
#[derive(Clone, Copy, Debug, PartialEq, Eq, Structural)]
pub struct Sender {
    pub token: Token,
    pub connection_id: u32,
}

impl Sender {
    pub fn new(token: Token, connection_id: u32) -> (s: Sender)
        ensures
            s.token == token,
            s.connection_id == connection_id,
    {
        Sender { token, connection_id }
    }

    pub fn token(&self) -> (t: Token)
        ensures
            t == self.token,
    {
        self.token
    }

    pub fn connection_id(&self) -> (id: u32)
        ensures
            id == self.connection_id,
    {
        self.connection_id
    }
}

} // verus!
