//! A fiber that lends the items of an iterator.
use vstd::prelude::*;
use vstd::std_specs::iter::IteratorSpec;
use crate::cofn::Eval;
use crate::fiber::Fiber;
use crate::state::State;

verus! {

/// A fiber over an iterator that keeps each item and lends it to the driver
/// as a cofunction, until the next step replaces it.
#[derive(Debug)]
pub struct IterFbr<I: Iterator> {
    iter: I,
    eval: Option<Eval<I::Item>>,
    retired: bool,
}

impl<I: Iterator> IterFbr<I> {
    /// The iterator that the fiber draws its items from.
    pub closed spec fn source(&self) -> I {
        self.iter
    }

    /// The item that the fiber holds for lending, if any.
    pub closed spec fn lent(&self) -> Option<I::Item> {
        match self.eval {
            Some(eval) => Some(eval@),
            None => None,
        }
    }

    /// Whether a step of the fiber has ended in `Done`.
    pub closed spec fn retired(&self) -> bool {
        self.retired
    }

    /// Wrap `iter` into a running fiber that holds no item yet.
    pub fn new(iter: I) -> (fiber: Self)
        ensures
            fiber.source() == iter,
            fiber.lent() is None,
            !fiber.retired(),
    {
        Self { iter, eval: None, retired: false }
    }

    /// Replace the held item by the next one of the iterator, or by none if
    /// the iterator has none left. Returns whether there was one.
    fn pull(&mut self) -> (some: bool)
        ensures
            some == (final(self).lent() is Some),
            final(self).retired() == old(self).retired(),
            final(self).source().obeys_prophetic_iter_laws()
                == old(self).source().obeys_prophetic_iter_laws(),
            old(self).source().obeys_prophetic_iter_laws() ==> {
                let items = old(self).source().remaining();
                if items.len() > 0 {
                    &&& final(self).lent() == Some(items[0])
                    &&& final(self).source().remaining() == items.drop_first()
                } else {
                    &&& final(self).lent() is None
                    &&& final(self).source().remaining() == items
                }
            },
            some && old(self).source().obeys_prophetic_iter_laws()
                && old(self).source().decrease() is Some ==> {
                &&& final(self).source().decrease() is Some
                &&& final(self).source().decrease()->0 < old(self).source().decrease()->0
            },
    {
        self.eval =
        match self.iter.next() {
            Some(item) => Some(Eval::from(item)),
            None => None,
        };
        self.eval.is_some()
    }

    /// Pull the next item from the iterator, keep it, and lend it.
    ///
    /// Returns `None`, and holds no item, when the iterator has none left.
    /// This does not retire the fiber.
    pub fn next(&mut self) -> (coro: Option<&Eval<I::Item>>)
        ensures
            match coro {
                Some(eval) => final(self).lent() == Some(eval@),
                None => final(self).lent() is None,
            },
            final(self).retired() == old(self).retired(),
            final(self).source().obeys_prophetic_iter_laws()
                == old(self).source().obeys_prophetic_iter_laws(),
            old(self).source().obeys_prophetic_iter_laws() ==> {
                let items = old(self).source().remaining();
                if items.len() > 0 {
                    &&& final(self).lent() == Some(items[0])
                    &&& final(self).source().remaining() == items.drop_first()
                } else {
                    &&& final(self).lent() is None
                    &&& final(self).source().remaining() == items
                }
            },
            coro is Some && old(self).source().obeys_prophetic_iter_laws()
                && old(self).source().decrease() is Some ==> {
                &&& final(self).source().decrease() is Some
                &&& final(self).source().decrease()->0 < old(self).source().decrease()->0
            },
    {
        self.pull();
        self.eval.as_ref()
    }
}

impl<I: Iterator + 'static> Fiber for IterFbr<I> {
    type Yield<'a> = &'a Eval<I::Item>;

    type Output = ();

    /// The fiber runs until a step has found the iterator empty.
    open spec fn running(&self) -> bool {
        !self.retired()
    }

    /// The budget is the iterator's own measure, where the iterator keeps to
    /// the iterator laws.
    open spec fn budget(&self) -> Option<nat> {
        if self.source().obeys_prophetic_iter_laws() {
            self.source().decrease()
        } else {
            None
        }
    }

    /// A yield lends the item that the fiber holds afterwards; the final step
    /// leaves the fiber retired and without an item.
    open spec fn step<'a>(&self, next: &Self, out: State<&'a Eval<I::Item>, ()>) -> bool {
        &&& next.source().obeys_prophetic_iter_laws() == self.source().obeys_prophetic_iter_laws()
        &&& match out {
            State::Yield(eval) => !next.retired() && next.lent() == Some(eval@),
            State::Done(_) => next.retired() && next.lent() is None,
        }
    }

    /// Pull the next item from the iterator: lend it if there is one, else
    /// finish.
    ///
    /// A caller outside the verifier's reach that runs a retired fiber gets a
    /// panic.
    fn run(&mut self) -> (out: State<&Eval<I::Item>, ()>)
        ensures
            old(self).source().obeys_prophetic_iter_laws() ==> {
                let items = old(self).source().remaining();
                if items.len() > 0 {
                    &&& out matches State::Yield(eval)
                    &&& eval@ == items[0]
                    &&& final(self).source().remaining() == items.drop_first()
                } else {
                    &&& out is Done
                    &&& final(self).source().remaining() == items
                }
            },
    {
        if self.retired {
            Option::<()>::None.expect("a retired fiber is not run again");
        }
        self.retired = !self.pull();
        match self.eval.as_ref() {
            Some(eval) => State::Yield(eval),
            None => State::Done(()),
        }
    }
}

} // verus!
