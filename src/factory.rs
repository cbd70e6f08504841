//! The factory capability and its adapter for plain callables.
use vstd::prelude::*;

use core::marker::PhantomData;

use crate::sender::Sender;

verus! {

/// Produces one handler per new connection and receives its lifecycle events.
///
/// The event loop calls these methods one at a time, never concurrently. An
/// implementation states what its hooks do through `makes`, `produced`,
/// `retires` and `shuts_down`.
pub trait Factory: Sized {
    /// The per-connection value that processes that connection's events.
    type Handler;

    /// `h` is a handler this factory may hand out for `ws`, going from state
    /// `self` to state `next`.
    spec fn makes(&self, ws: Sender, next: Self, h: Self::Handler) -> bool;

    /// `h` is a handler this factory has handed out. Once true it stays true.
    spec fn produced(&self, h: Self::Handler) -> bool;

    /// Taking back `h` moves the factory from state `self` to state `next`.
    spec fn retires(&self, h: Self::Handler, next: Self) -> bool;

    /// Shutting down moves the factory from state `self` to state `next`.
    spec fn shuts_down(&self, next: Self) -> bool;

    /// Builds the handler for a newly established connection.
    fn connection_made(&mut self, ws: Sender) -> (h: Self::Handler)
        ensures
            old(self).makes(ws, *final(self), h),
            final(self).produced(h),
            forall|g: Self::Handler| old(self).produced(g) ==> #[trigger] final(self).produced(g),
    ;

    /// Called for a connection this process initiated; by default it is
    /// `connection_made`.
    fn client_connected(&mut self, ws: Sender) -> (h: Self::Handler)
        ensures
            old(self).makes(ws, *final(self), h),
            final(self).produced(h),
            forall|g: Self::Handler| old(self).produced(g) ==> #[trigger] final(self).produced(g),
    {
        self.connection_made(ws)
    }

    /// Called for a connection this process accepted; by default it is
    /// `connection_made`.
    fn server_connected(&mut self, ws: Sender) -> (h: Self::Handler)
        ensures
            old(self).makes(ws, *final(self), h),
            final(self).produced(h),
            forall|g: Self::Handler| old(self).produced(g) ==> #[trigger] final(self).produced(g),
    {
        self.connection_made(ws)
    }

    /// Takes back the handler of a connection that has terminated. The
    /// handler must be one this factory produced, handed back once.
    fn connection_lost(&mut self, handler: Self::Handler)
        requires
            old(self).produced(handler),
        ensures
            old(self).retires(handler, *final(self)),
            forall|g: Self::Handler| old(self).produced(g) ==> #[trigger] final(self).produced(g),
    ;

    /// Called when the communication subsystem shuts down; needs no prior
    /// connection.
    fn on_shutdown(&mut self)
        ensures
            old(self).shuts_down(*final(self)),
            forall|g: Self::Handler| old(self).produced(g) ==> #[trigger] final(self).produced(g),
    ;
}

/// Where a factory allows one outcome for each state and handle, a connected
/// hook yields the same handler and the same next state as a direct call of
/// `connection_made` from that state.
pub proof fn lemma_hooks_match_connection_made<F: Factory>(
    f: F,
    ws: Sender,
    direct: (F, F::Handler),
    hooked: (F, F::Handler),
)
    requires
        forall|n1: F, h1: F::Handler, n2: F, h2: F::Handler|
            f.makes(ws, n1, h1) && f.makes(ws, n2, h2) ==> n1 == n2 && h1 == h2,
        f.makes(ws, direct.0, direct.1),
        f.makes(ws, hooked.0, hooked.1),
    ensures
        hooked == direct,
{
}

/// A factory made of a single callable from connection handle to handler;
/// taking a handler back and shutting down leave it as it is.
#[verifier::reject_recursive_types(H)]
pub struct FnFactory<H, F: Fn(Sender) -> H> {
    f: F,
    handler: PhantomData<H>,
}

impl<H, F: Fn(Sender) -> H> FnFactory<H, F> {
    /// The callable this factory invokes for each connection.
    pub closed spec fn func(&self) -> F {
        self.f
    }

    #[verifier::type_invariant]
    spec fn accepts_every_handle(&self) -> bool {
        forall|ws: Sender| call_requires(self.f, (ws,))
    }

    /// Wraps `f`, which must accept every connection handle.
    pub fn new(f: F) -> (r: Self)
        requires
            forall|ws: Sender| call_requires(f, (ws,)),
        ensures
            r.func() == f,
    {
        FnFactory { f, handler: PhantomData }
    }
}

impl<H, F: Fn(Sender) -> H> Factory for FnFactory<H, F> {
    type Handler = H;

    open spec fn makes(&self, ws: Sender, next: Self, h: H) -> bool {
        &&& next == *self
        &&& call_ensures(self.func(), (ws,), h)
    }

    open spec fn produced(&self, h: H) -> bool {
        exists|ws: Sender| #[trigger] call_ensures(self.func(), (ws,), h)
    }

    open spec fn retires(&self, h: H, next: Self) -> bool {
        next == *self
    }

    open spec fn shuts_down(&self, next: Self) -> bool {
        next == *self
    }

    fn connection_made(&mut self, ws: Sender) -> (h: H)
        ensures
            *final(self) == *old(self),
            call_ensures(old(self).func(), (ws,), h),
    {
        proof {
            use_type_invariant(&*self);
        }
        let h = (self.f)(ws);
        assert(call_ensures(self.func(), (ws,), h));
        h
    }

    /// Does nothing: the handler is dropped.
    fn connection_lost(&mut self, handler: H)
        ensures
            *final(self) == *old(self),
    {
    }

    /// Does nothing.
    fn on_shutdown(&mut self)
        ensures
            *final(self) == *old(self),
    {
    }
}

} // verus!
