//! A composite handler: an ordered collection of handlers that each receive
//! every captured request and response.

use vstd::prelude::*;

verus! {

/// An ordered collection of handlers. Every captured item is handed to each
/// handler in the collection; the handlers run concurrently.
pub struct MultiHandler<H> {
    handlers: Vec<H>,
}

impl<H> MultiHandler<H> {
    /// The handlers, in the order they were added.
    pub closed spec fn view(&self) -> Seq<H> {
        self.handlers@
    }

    /// An empty collection.
    pub fn new() -> (m: Self)
        ensures
            m.view() == Seq::<H>::empty(),
    {
        MultiHandler { handlers: Vec::new() }
    }

    /// The collection with `handler` added after the existing handlers.
    pub fn with(self, handler: H) -> (m: Self)
        ensures
            m.view() == self.view().push(handler),
    {
        let mut handlers = self.handlers;
        handlers.push(handler);
        MultiHandler { handlers }
    }

    /// Whether no handlers have been added.
    pub fn is_empty(&self) -> (empty: bool)
        ensures
            empty == (self.view().len() == 0),
    {
        self.handlers.len() == 0
    }

    /// The number of handlers.
    pub fn len(&self) -> (n: usize)
        ensures
            n == self.view().len(),
    {
        self.handlers.len()
    }

    /// The handlers, in the order they were added.
    pub fn handlers(&self) -> (hs: &Vec<H>)
        ensures
            hs@ == self.view(),
    {
        &self.handlers
    }
}

impl<H> Default for MultiHandler<H> {
    /// An empty collection.
    fn default() -> (m: Self)
        ensures
            m.view() == Seq::<H>::empty(),
    {
        MultiHandler::new()
    }
}

/// Adding handlers one by one keeps all of them, in the order they were added:
/// after adding `hs` to an empty collection, the collection is exactly `hs`.
pub open spec fn with_all<H>(base: Seq<H>, hs: Seq<H>) -> Seq<H>
    decreases hs.len(),
{
    if hs.len() == 0 {
        base
    } else {
        with_all(base, hs.drop_last()).push(hs.last())
    }
}

/// Adding handlers one by one to an empty collection yields exactly those
/// handlers, in order; in particular its length is the number added.
pub proof fn lemma_with_all_keeps_order<H>(hs: Seq<H>)
    ensures
        with_all(Seq::<H>::empty(), hs) == hs,
    decreases hs.len(),
{
    if hs.len() > 0 {
        lemma_with_all_keeps_order(hs.drop_last());
        assert(hs.drop_last().push(hs.last()) =~= hs);
    }
}

} // verus!
