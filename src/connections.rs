//! The per-connection record that drives a factory: one handler per live
//! connection, each retired exactly once.
use vstd::prelude::*;

use crate::factory::Factory;
use crate::sender::{Sender, Token};

verus! {

/// Which side established a connection.
#[derive(Clone, Copy, Debug, PartialEq, Eq, Structural)]
pub enum Role {
    /// This process initiated the connection.
    Client,
    /// This process accepted the connection.
    Server,
}

/// Owns a factory and the handlers it produced for the connections that are
/// still open.
pub struct Connections<F: Factory> {
    factory: F,
    live: Vec<(Token, F::Handler)>,
    open_map: Ghost<Map<Token, F::Handler>>,
    made_map: Ghost<Map<Token, F::Handler>>,
    retired_map: Ghost<Map<Token, F::Handler>>,
}

impl<F: Factory> Connections<F> {
    /// The factory being driven.
    pub closed spec fn factory(&self) -> F {
        self.factory
    }

    /// The handler of each open connection, by token.
    pub closed spec fn live(&self) -> Map<Token, F::Handler> {
        self.open_map@
    }

    /// Every handler the factory produced, by the token of its connection.
    pub closed spec fn made(&self) -> Map<Token, F::Handler> {
        self.made_map@
    }

    /// Every handler handed back to the factory, by the token of its connection.
    pub closed spec fn retired(&self) -> Map<Token, F::Handler> {
        self.retired_map@
    }

    pub closed spec fn wf(&self) -> bool {
        &&& forall|i: int, j: int|
            0 <= i < j < self.live@.len() ==> #[trigger] self.live@[i].0 != #[trigger] self.live@[j].0
        &&& forall|i: int|
            0 <= i < self.live@.len() ==> {
                &&& self.open_map@.contains_key(#[trigger] self.live@[i].0)
                &&& self.open_map@[self.live@[i].0] == self.live@[i].1
            }
        &&& forall|t: Token|
            #[trigger] self.open_map@.contains_key(t) ==> exists|i: int|
                0 <= i < self.live@.len() && #[trigger] self.live@[i].0 == t
        &&& self.open_map@.dom().disjoint(self.retired_map@.dom())
        &&& self.made_map@ == self.open_map@.union_prefer_right(self.retired_map@)
        &&& forall|t: Token| #[trigger]
            self.open_map@.contains_key(t) ==> self.factory.produced(self.open_map@[t])
    }

    /// Starts with no connections.
    pub fn new(factory: F) -> (r: Self)
        ensures
            r.wf(),
            r.factory() == factory,
            r.live() == Map::<Token, F::Handler>::empty(),
            r.made() == Map::<Token, F::Handler>::empty(),
            r.retired() == Map::<Token, F::Handler>::empty(),
    {
        let r = Connections {
            factory,
            live: Vec::new(),
            open_map: Ghost(Map::empty()),
            made_map: Ghost(Map::empty()),
            retired_map: Ghost(Map::empty()),
        };
        assert(r.made_map@ =~= r.open_map@.union_prefer_right(r.retired_map@));
        r
    }

    /// The factory being driven.
    pub fn factory_ref(&self) -> (f: &F)
        ensures
            *f == self.factory(),
    {
        &self.factory
    }

    /// Whether the connection `token` is open.
    pub fn is_open(&self, token: Token) -> (open: bool)
        requires
            self.wf(),
        ensures
            open == self.live().contains_key(token),
    {
        let mut i: usize = 0;
        while i < self.live.len()
            invariant
                self.wf(),
                i <= self.live@.len(),
                forall|k: int| 0 <= k < i ==> #[trigger] self.live@[k].0 != token,
            decreases self.live@.len() - i,
        {
            if self.live[i].0 == token {
                return true;
            }
            i += 1;
        }
        proof {
            if self.open_map@.contains_key(token) {
                let k = choose|k: int| 0 <= k < self.live@.len() && #[trigger] self.live@[k].0 == token;
                assert(self.live@[k].0 != token);
            }
        }
        false
    }

    /// Hands a newly established connection to the factory's hook for `role`
    /// and keeps the handler it produces. `ws` must name a connection that
    /// this record has not seen before.
    pub fn connect(&mut self, ws: Sender, role: Role)
        requires
            old(self).wf(),
            !old(self).made().contains_key(ws.token),
        ensures
            final(self).wf(),
            old(self).factory().makes(ws, final(self).factory(), final(self).live()[ws.token]),
            final(self).live() == old(self).live().insert(ws.token, final(self).live()[ws.token]),
            final(self).made() == old(self).made().insert(ws.token, final(self).live()[ws.token]),
            final(self).retired() == old(self).retired(),
    {
        let h = match role {
            Role::Client => self.factory.client_connected(ws),
            Role::Server => self.factory.server_connected(ws),
        };
        let ghost h_spec = h;
        let ghost old_live = self.live@;
        self.live.push((ws.token, h));
        self.open_map = Ghost(self.open_map@.insert(ws.token, h_spec));
        self.made_map = Ghost(self.made_map@.insert(ws.token, h_spec));
        proof {
            let n = old_live.len() as int;
            assert(self.live@[n].0 == ws.token);
            assert forall|t: Token| #[trigger] self.open_map@.contains_key(t) implies exists|i: int|
                0 <= i < self.live@.len() && #[trigger] self.live@[i].0 == t by {
                if t != ws.token {
                    let i = choose|i: int| 0 <= i < old_live.len() && #[trigger] old_live[i].0 == t;
                    assert(self.live@[i].0 == t);
                }
            }
            assert(self.made_map@ =~= self.open_map@.union_prefer_right(self.retired_map@));
        }
    }

    /// Retires the connection `token`: its handler goes back to the factory
    /// exactly once. Returns `false`, and changes nothing, when no open
    /// connection has that token.
    pub fn close(&mut self, token: Token) -> (closed: bool)
        requires
            old(self).wf(),
        ensures
            final(self).wf(),
            closed == old(self).live().contains_key(token),
            closed ==> {
                &&& final(self).live() == old(self).live().remove(token)
                &&& final(self).retired() == old(self).retired().insert(token, old(self).live()[token])
                &&& !old(self).retired().contains_key(token)
                &&& old(self).factory().retires(old(self).live()[token], final(self).factory())
            },
            !closed ==> *final(self) == *old(self),
            final(self).made() == old(self).made(),
    {
        let mut i: usize = 0;
        while i < self.live.len()
            invariant
                self.wf(),
                *self == *old(self),
                i <= self.live@.len(),
                forall|k: int| 0 <= k < i ==> #[trigger] self.live@[k].0 != token,
            decreases self.live@.len() - i,
        {
            if self.live[i].0 == token {
                let ghost old_live = self.live@;
                let (_, h) = self.live.remove(i);
                self.open_map = Ghost(self.open_map@.remove(token));
                self.retired_map = Ghost(self.retired_map@.insert(token, h));
                self.factory.connection_lost(h);
                proof {
                    assert forall|a: int, b: int|
                        0 <= a < b < self.live@.len() implies #[trigger] self.live@[a].0
                        != #[trigger] self.live@[b].0 by {
                        let a0 = if a < i { a } else { a + 1 };
                        let b0 = if b < i { b } else { b + 1 };
                        assert(self.live@[a] == old_live[a0]);
                        assert(self.live@[b] == old_live[b0]);
                    }
                    assert forall|k: int| 0 <= k < self.live@.len() implies {
                        &&& self.open_map@.contains_key(#[trigger] self.live@[k].0)
                        &&& self.open_map@[self.live@[k].0] == self.live@[k].1
                    } by {
                        let k0 = if k < i { k } else { k + 1 };
                        assert(self.live@[k] == old_live[k0]);
                        assert(old_live[k0].0 != old_live[i as int].0);
                    }
                    assert forall|t: Token| #[trigger] self.open_map@.contains_key(t) implies exists|k: int|
                        0 <= k < self.live@.len() && #[trigger] self.live@[k].0 == t by {
                        let k0 = choose|k0: int| 0 <= k0 < old_live.len() && #[trigger] old_live[k0].0 == t;
                        assert(k0 != i);
                        if k0 < i {
                            assert(self.live@[k0] == old_live[k0]);
                        } else {
                            assert(self.live@[k0 - 1] == old_live[k0]);
                        }
                    }
                    assert(self.made_map@ =~= self.open_map@.union_prefer_right(self.retired_map@));
                }
                return true;
            }
            i += 1;
        }
        proof {
            if self.open_map@.contains_key(token) {
                let k = choose|k: int| 0 <= k < self.live@.len() && #[trigger] self.live@[k].0 == token;
                assert(self.live@[k].0 != token);
            }
        }
        false
    }

    /// Tells the factory that the subsystem is shutting down. Open
    /// connections stay as they are.
    pub fn shutdown(&mut self)
        requires
            old(self).wf(),
        ensures
            final(self).wf(),
            final(self).live() == old(self).live(),
            final(self).made() == old(self).made(),
            final(self).retired() == old(self).retired(),
            old(self).factory().shuts_down(final(self).factory()),
    {
        let ghost before = *self;
        self.factory.on_shutdown();
        assert(self.live@ == before.live@);
        assert(self.open_map@ == before.open_map@);
    }
}

/// Every handler the factory produced is either still open or has been handed
/// back to the factory, never both; a handler handed back is the very one
/// produced for that connection; and once no connection is open, every
/// produced handler has been handed back.
pub proof fn lemma_retired_exactly_once<F: Factory>(c: Connections<F>)
    requires
        c.wf(),
    ensures
        forall|t: Token|
            #[trigger] c.made().contains_key(t) <==> (c.live().contains_key(t) || c.retired().contains_key(t)),
        forall|t: Token| !(#[trigger] c.live().contains_key(t) && c.retired().contains_key(t)),
        forall|t: Token| #[trigger] c.live().contains_key(t) ==> c.live()[t] == c.made()[t],
        forall|t: Token| #[trigger] c.retired().contains_key(t) ==> c.retired()[t] == c.made()[t],
        c.live() == Map::<Token, F::Handler>::empty() ==> c.retired() == c.made(),
{
    if c.live() == Map::<Token, F::Handler>::empty() {
        assert(c.retired() =~= c.made());
    }
}

} // verus!
