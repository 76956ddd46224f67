//! The order in which the middleware of an entry and its handler run.
//!
//! Middleware wraps the handler like the layers of an onion: the one
//! declared first is outermost. On the way in each layer runs before the
//! next one, down to the handler; on the way out the layers that were
//! entered run again, innermost first. A layer that answers by itself ends
//! the way in, and the way out begins with that layer.

use vstd::prelude::*;

verus! {

/// What runs next on the way in.
#[derive(Clone, Copy, Debug, PartialEq, Eq, Structural)]
pub enum Step {
    Middleware(usize),
    Handler(usize),
}

/// The middleware around a handler, and how many of them were entered.
#[derive(Debug)]
pub struct Chain {
    middlewares: Vec<usize>,
    handler: usize,
    depth: usize,
}

impl Chain {
    #[verifier::type_invariant]
    spec fn well_formed(&self) -> bool {
        self.depth <= self.middlewares@.len()
    }

    /// The middleware, outermost first.
    pub closed spec fn middlewares(&self) -> Seq<usize> {
        self.middlewares@
    }

    /// The handler.
    pub closed spec fn handler(&self) -> usize {
        self.handler
    }

    /// The number of middleware entered and not yet left.
    pub closed spec fn depth(&self) -> nat {
        self.depth as nat
    }

    /// The chain of these middleware around this handler, none entered.
    pub fn new(middlewares: Vec<usize>, handler: usize) -> (chain: Self)
        ensures
            chain.middlewares() == middlewares@,
            chain.handler() == handler,
            chain.depth() == 0,
    {
        Chain { middlewares, handler, depth: 0 }
    }

    /// What runs next on the way in: the outermost middleware not yet
    /// entered, which is then entered; or the handler, once all are.
    pub fn enter(&mut self) -> (step: Step)
        ensures
            final(self).middlewares() == old(self).middlewares(),
            final(self).handler() == old(self).handler(),
            final(self).depth() <= final(self).middlewares().len(),
            old(self).depth() < old(self).middlewares().len() ==> step == Step::Middleware(
                old(self).middlewares()[old(self).depth() as int],
            ) && final(self).depth() == old(self).depth() + 1,
            old(self).depth() >= old(self).middlewares().len() ==> step == Step::Handler(
                old(self).handler(),
            ) && final(self).depth() == old(self).depth(),
    {
        proof {
            use_type_invariant(&*self);
        }
        if self.depth < self.middlewares.len() {
            let m = self.middlewares[self.depth];
            self.depth = self.depth + 1;
            Step::Middleware(m)
        } else {
            Step::Handler(self.handler)
        }
    }

    /// What runs next on the way out: the innermost middleware that was
    /// entered, which is then left; or nothing, once all are left.
    pub fn leave(&mut self) -> (middleware: Option<usize>)
        ensures
            final(self).middlewares() == old(self).middlewares(),
            final(self).handler() == old(self).handler(),
            old(self).depth() > 0 ==> old(self).depth() <= old(self).middlewares().len()
                && middleware == Some(old(self).middlewares()[old(self).depth() - 1])
                && final(self).depth() == old(self).depth() - 1,
            old(self).depth() == 0 ==> middleware is None && final(self).depth() == 0,
    {
        proof {
            use_type_invariant(&*self);
        }
        if self.depth > 0 {
            self.depth = self.depth - 1;
            Some(self.middlewares[self.depth])
        } else {
            None
        }
    }
}

} // verus!
