//! Coupling a core object with the user handler that reacts to its events,
//! without letting the handler keep the object alive.
//!
//! Whoever holds the wrapper (or takes the core object out of it) controls
//! the object's lifetime.  The handler half can be dropped independently;
//! events routed afterwards still update the core object's bookkeeping and
//! are otherwise silently ignored — never an error.

use vstd::prelude::*;

verus! {

/// A core object and the optional user handler listening to its events.
pub struct HandlerWrapper<N, H> {
    pub core: N,
    pub handler: Option<H>,
}

impl<N, H> HandlerWrapper<N, H> {
    pub open spec fn spec_core(&self) -> N {
        self.core
    }

    pub open spec fn spec_handler(&self) -> Option<H> {
        self.handler
    }

    /// Whether the handler half is still present.
    pub open spec fn handler_present(&self) -> bool {
        self.spec_handler() is Some
    }

    pub fn new(core: N, handler: H) -> (r: HandlerWrapper<N, H>)
        ensures
            r.spec_core() == core,
            r.spec_handler() == Some(handler),
    {
        HandlerWrapper { core, handler: Some(handler) }
    }

    /// The wrapped core object.
    pub fn wrapped(&self) -> (r: &N)
        ensures
            *r == self.spec_core(),
    {
        &self.core
    }

    /// Whether events still reach a live handler.
    pub fn handler_alive(&self) -> (r: bool)
        ensures
            r == self.handler_present(),
    {
        match &self.handler {
            Some(_) => true,
            None => false,
        }
    }

    /// Drop the handler half while keeping the core object: events routed
    /// from now on find no handler and are silently skipped.
    pub fn take_handler(&mut self) -> (r: Option<H>)
        ensures
            r == old(self).spec_handler(),
            final(self).spec_handler() is None,
            final(self).spec_core() == old(self).spec_core(),
    {
        let mut taken: Option<H> = None;
        core::mem::swap(&mut taken, &mut self.handler);
        taken
    }

    /// Give the core object back, dropping the handler coupling entirely.
    pub fn into_inner(self) -> (r: N)
        ensures
            r == self.spec_core(),
    {
        self.core
    }
}

} // verus!
