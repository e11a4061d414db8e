//! `Iterator` and `Fiber`, one as the other.
//!
//! Any iterator becomes a fiber that yields the iterator's items and then
//! finishes with a final output: one that is given up front
//! ([`FiberIter`]) or one that is computed when the items have run out
//! ([`FiberIterLazy`]). The other way round, [`IntoIter`] hands out the yields
//! of a fiber one by one and passes the final output to a sink.
use vstd::prelude::*;
use vstd::std_specs::iter::IteratorSpec;
use crate::fiber::{
    completes, lemma_complete_run_plays_script, lemma_complete_run_yields_exactly, plays, yields,
    yields_exactly, Fiber,
};
use crate::iter::IterFbr;
use crate::state::State;

verus! {

/// A fiber over an iterator, with a final output that is given up front.
#[derive(Debug, PartialEq)]
pub struct FiberIter<I, T> where I: Iterator {
    iter: I,
    output: Option<T>,
}

impl<I, T> FiberIter<I, T> where I: Iterator {
    /// The iterator that the fiber draws its yields from.
    pub closed spec fn source(&self) -> I {
        self.iter
    }

    /// The final output, as long as the fiber holds it.
    pub closed spec fn output(&self) -> Option<T> {
        self.output
    }

    /// Wrap `iter` and the final output into a running fiber.
    pub fn new(iter: I, output: T) -> (fiber: Self)
        ensures
            fiber.source() == iter,
            fiber.output() == Some(output),
    {
        Self { iter, output: Some(output) }
    }
}

impl<I, T> Fiber for FiberIter<I, T> where I: Iterator + 'static, T: 'static {
    type Yield<'a> = I::Item;

    type Output = T;

    /// The fiber runs as long as it holds its final output.
    open spec fn running(&self) -> bool {
        self.output() is Some
    }

    /// The budget is the iterator's own measure, where the iterator keeps to
    /// the iterator laws.
    open spec fn budget(&self) -> Option<nat> {
        if self.source().obeys_prophetic_iter_laws() {
            self.source().decrease()
        } else {
            None
        }
    }

    /// A yield leaves the final output in place; the final step hands it out.
    open spec fn step<'a>(&self, next: &Self, out: State<I::Item, T>) -> bool {
        &&& next.source().obeys_prophetic_iter_laws() == self.source().obeys_prophetic_iter_laws()
        &&& match out {
            State::Yield(_) => self.output() is Some && next.output() == self.output(),
            State::Done(t) => self.output() == Some(t) && next.output() is None,
        }
    }

    /// Pull one item from the iterator: yield it if there is one, else finish
    /// with the final output.
    fn run(&mut self) -> (out: State<I::Item, T>)
        ensures
            old(self).source().obeys_prophetic_iter_laws() ==> {
                let items = old(self).source().remaining();
                if items.len() > 0 {
                    &&& out == State::<I::Item, T>::Yield(items[0])
                    &&& final(self).source().remaining() == items.drop_first()
                } else {
                    &&& out is Done
                    &&& final(self).source().remaining() == items
                }
            },
    {
        match self.iter.next() {
            Some(val) => State::Yield(val),
            None => State::Done(self.output.take().unwrap()),
        }
    }
}

/// Through a run of yields the fiber holds on to its final output.
pub proof fn lemma_output_is_kept<I, T>(
    start: FiberIter<I, T>,
    states: Seq<FiberIter<I, T>>,
    items: Seq<I::Item>,
    i: int,
) where I: Iterator + 'static, T: 'static
    requires
        yields(start, states, items),
        0 <= i < states.len(),
    ensures
        states[i].output() == start.output(),
    decreases i,
{
    if i > 0 {
        lemma_output_is_kept(start, states, items, i - 1);
        assert(states[i - 1].step(&states[i], State::Yield(items[i - 1])));
    }
}

/// The final output of a complete run is the one that the fiber was made
/// with, whatever the iterator did, and the retired fiber holds none.
pub proof fn lemma_output_is_handed_out<I, T>(
    start: FiberIter<I, T>,
    items: Seq<I::Item>,
    end: FiberIter<I, T>,
    out: T,
) where I: Iterator + 'static, T: 'static
    requires
        completes(start, items, end, out),
    ensures
        start.output() == Some(out),
        end.output() is None,
{
    let states = choose|states: Seq<FiberIter<I, T>>| #[trigger]
        yields(start, states, items) && states.last().step(&end, State::Done(out));
    lemma_output_is_kept(start, states, items, states.len() - 1);
}

/// A fiber over an iterator, with a final output that is computed only when
/// the items have run out.
#[derive(Debug, PartialEq)]
#[verifier::reject_recursive_types(T)]
pub struct FiberIterLazy<I, T, OP> where I: Iterator, OP: FnOnce() -> T {
    iter: I,
    f: Option<OP>,
}

impl<I, T, OP> FiberIterLazy<I, T, OP> where I: Iterator, OP: FnOnce() -> T {
    /// The iterator that the fiber draws its yields from.
    pub closed spec fn source(&self) -> I {
        self.iter
    }

    /// The operation that computes the final output, as long as it has not
    /// been called.
    pub closed spec fn thunk(&self) -> Option<OP> {
        self.f
    }

    /// Wrap `iter` and the operation for the final output into a fiber. The
    /// operation is not called here.
    pub fn new(iter: I, f: OP) -> (fiber: Self)
        ensures
            fiber.source() == iter,
            fiber.thunk() == Some(f),
    {
        Self { iter, f: Some(f) }
    }
}

impl<I, T, OP> Fiber for FiberIterLazy<I, T, OP> where
    I: Iterator + 'static,
    T: 'static,
    OP: FnOnce() -> T + 'static,
 {
    type Yield<'a> = I::Item;

    type Output = T;

    /// The fiber runs as long as it holds the operation for the final output,
    /// and that operation can be called.
    open spec fn running(&self) -> bool {
        self.thunk() matches Some(f) && f.requires(())
    }

    /// The budget is the iterator's own measure, where the iterator keeps to
    /// the iterator laws.
    open spec fn budget(&self) -> Option<nat> {
        if self.source().obeys_prophetic_iter_laws() {
            self.source().decrease()
        } else {
            None
        }
    }

    /// A yield leaves the operation untouched; the final step calls it, hands
    /// out what it returned and gives the operation up.
    open spec fn step<'a>(&self, next: &Self, out: State<I::Item, T>) -> bool {
        &&& next.source().obeys_prophetic_iter_laws() == self.source().obeys_prophetic_iter_laws()
        &&& match out {
            State::Yield(_) => self.thunk() is Some && next.thunk() == self.thunk(),
            State::Done(t) => {
                &&& self.thunk() matches Some(f)
                &&& f.ensures((), t)
                &&& next.thunk() is None
            },
        }
    }

    /// Pull one item from the iterator: yield it if there is one, else call
    /// the operation and finish with what it returns.
    fn run(&mut self) -> (out: State<I::Item, T>)
        ensures
            old(self).source().obeys_prophetic_iter_laws() ==> {
                let items = old(self).source().remaining();
                if items.len() > 0 {
                    &&& out == State::<I::Item, T>::Yield(items[0])
                    &&& final(self).source().remaining() == items.drop_first()
                } else {
                    &&& out is Done
                    &&& final(self).source().remaining() == items
                }
            },
    {
        match self.iter.next() {
            Some(val) => State::Yield(val),
            None => {
                let f = self.f.take().unwrap();
                State::Done(f())
            },
        }
    }
}

/// Through a run of yields the fiber holds on to the operation for its final
/// output: the operation is not called while the fiber yields.
pub proof fn lemma_thunk_is_held_back<I, T, OP>(
    start: FiberIterLazy<I, T, OP>,
    states: Seq<FiberIterLazy<I, T, OP>>,
    items: Seq<I::Item>,
    i: int,
) where I: Iterator + 'static, T: 'static, OP: FnOnce() -> T + 'static
    requires
        yields(start, states, items),
        0 <= i < states.len(),
    ensures
        states[i].thunk() == start.thunk(),
    decreases i,
{
    if i > 0 {
        lemma_thunk_is_held_back(start, states, items, i - 1);
        assert(states[i - 1].step(&states[i], State::Yield(items[i - 1])));
    }
}

/// The final output of a complete run is what the operation returned when the
/// last step called it. That call uses the operation up: the retired fiber
/// holds none, so there is no second call.
pub proof fn lemma_thunk_is_called_at_the_end<I, T, OP>(
    start: FiberIterLazy<I, T, OP>,
    items: Seq<I::Item>,
    end: FiberIterLazy<I, T, OP>,
    out: T,
) where I: Iterator + 'static, T: 'static, OP: FnOnce() -> T + 'static
    requires
        completes(start, items, end, out),
    ensures
        start.thunk() matches Some(f) && f.ensures((), out),
        end.thunk() is None,
{
    let states = choose|states: Seq<FiberIterLazy<I, T, OP>>| #[trigger]
        yields(start, states, items) && states.last().step(&end, State::Done(out));
    lemma_thunk_is_held_back(start, states, items, states.len() - 1);
}

/// The yields of a fiber, one by one, with a sink for the final output.
///
/// Each call of [`next`](IntoIter::next) runs the fiber once. A yield is
/// handed out as the next item. When the fiber finishes, the sink receives
/// the final output and the sequence ends; from then on `next` returns `None`
/// and touches neither the fiber nor the sink.
#[derive(Debug)]
#[verifier::reject_recursive_types(F)]
pub struct IntoIter<F, OP> where F: Fiber, OP: FnOnce(F::Output) {
    fiber: F,
    sink: Option<OP>,
}

impl<F, OP> IntoIter<F, OP> where F: Fiber, OP: FnOnce(F::Output) {
    /// The fiber that is being driven.
    pub closed spec fn fiber(&self) -> F {
        self.fiber
    }

    /// The sink, as long as it has not been called.
    pub closed spec fn sink(&self) -> Option<OP> {
        self.sink
    }

    /// As long as the sink waits for the final output, the fiber is running.
    pub open spec fn wf(&self) -> bool {
        self.sink() is Some ==> self.fiber().running()
    }

    /// The sink accepts every final output that the fiber's next step may
    /// produce.
    pub open spec fn sink_ready(&self) -> bool {
        self.sink() matches Some(op) ==> forall|end: F, out: F::Output| #[trigger]
            self.fiber().step(&end, State::Done(out)) ==> op.requires((out,))
    }

    /// View a running fiber as a sequence of its yields; `sink` will receive
    /// the final output.
    pub fn new(fiber: F, sink: OP) -> (iter: Self)
        requires
            fiber.running(),
        ensures
            iter.fiber() == fiber,
            iter.sink() == Some(sink),
            iter.wf(),
    {
        Self { fiber, sink: Some(sink) }
    }

    /// The next item: the fiber's next yield, or `None` once the fiber has
    /// finished.
    ///
    /// The call that sees the fiber finish passes the final output to the
    /// sink and gives the sink up.
    pub fn next(&mut self) -> (item: Option<F::Yield<'_>>)
        requires
            old(self).wf(),
            old(self).sink_ready(),
        ensures
            final(self).wf(),
            old(self).sink() is None ==> item is None && *final(self) == *old(self),
            old(self).sink() matches Some(op) ==> match item {
                Some(yld) => {
                    &&& old(self).fiber().step(&final(self).fiber(), State::Yield(yld))
                    &&& final(self).sink() == old(self).sink()
                },
                None => {
                    &&& final(self).sink() is None
                    &&& exists|out: F::Output|
                        {
                            &&& #[trigger] old(self).fiber().step(
                                &final(self).fiber(),
                                State::Done(out),
                            )
                            &&& op.ensures((out,), ())
                        }
                },
            },
            old(self).sink() is Some && item is Some && old(self).fiber().budget() is Some ==> {
                &&& final(self).fiber().budget() is Some
                &&& final(self).fiber().budget()->0 < old(self).fiber().budget()->0
            },
            old(self).sink() is Some ==> exists|fbr: &mut F, out: State<F::Yield<'_>, F::Output>|
                {
                    &&& *fbr == old(self).fiber()
                    &&& *final(fbr) == final(self).fiber()
                    &&& #[trigger] call_ensures(F::run, (fbr,), out)
                    &&& match item {
                        Some(yld) => out == State::<F::Yield<'_>, F::Output>::Yield(yld),
                        None => out is Done,
                    }
                },
    {
        if self.sink.is_none() {
            return None;
        }
        match self.fiber.run() {
            State::Yield(yld) => Some(yld),
            State::Done(out) => {
                let op = self.sink.take().unwrap();
                op(out);
                None
            },
        }
    }
}

/// Driving `fiber` to completion through [`IntoIter`] hands out `items` and
/// then calls `sink`, once, on the final output of that run.
pub open spec fn drains<'a, F: Fiber, OP: FnOnce(F::Output)>(
    fiber: F,
    sink: OP,
    items: Seq<F::Yield<'a>>,
) -> bool {
    exists|end: F, out: F::Output| #[trigger]
        completes(fiber, items, end, out) && sink.ensures((out,), ())
}

/// Of a fiber that is known to yield exactly `count` times and then finish
/// with `result`, the iterator view hands out exactly `count` items, and the
/// call of the sink is one on `result`.
pub proof fn lemma_drains_exactly<'a, F: Fiber, OP: FnOnce(F::Output)>(
    fiber: F,
    count: nat,
    result: F::Output,
    sink: OP,
    items: Seq<F::Yield<'a>>,
)
    requires
        yields_exactly(fiber, count, result),
        drains(fiber, sink, items),
    ensures
        items.len() == count,
        sink.ensures((result,), ()),
{
    let (end, out) = choose|end: F, out: F::Output| #[trigger]
        completes(fiber, items, end, out) && sink.ensures((out,), ());
    lemma_complete_run_yields_exactly(fiber, count, result, items, end, out);
}

/// Of a fiber that is known to yield `script` and then finish with `result`,
/// the iterator view hands out exactly the items of `script`, in order, and
/// the call of the sink is one on `result`.
pub proof fn lemma_drains_script<'a, F: Fiber, OP: FnOnce(F::Output)>(
    fiber: F,
    script: Seq<F::Yield<'a>>,
    result: F::Output,
    sink: OP,
    items: Seq<F::Yield<'a>>,
)
    requires
        plays(fiber, script, result),
        drains(fiber, sink, items),
    ensures
        items == script,
        sink.ensures((result,), ()),
{
    let (end, out) = choose|end: F, out: F::Output| #[trigger]
        completes(fiber, items, end, out) && sink.ensures((out,), ());
    lemma_complete_run_plays_script(fiber, script, result, items, end, out);
}

impl<Y, F, OP> IntoIter<F, OP> where
    F: 'static + for <'a>Fiber<Yield<'a> = Y>,
    OP: FnOnce(F::Output),
 {
    /// Drive the fiber to completion and collect its yields, in order.
    ///
    /// The fiber must have a budget, and the sink must accept the final
    /// output of every complete run. Nothing is collected, and the sink is
    /// not called, if the sequence had ended before.
    pub fn collect(self) -> (items: Vec<Y>)
        requires
            self.wf(),
            self.sink() is Some ==> self.fiber().budget() is Some,
            self.sink() matches Some(op) ==> forall|items: Seq<Y>, end: F, out: F::Output|
                #[trigger] completes(self.fiber(), items, end, out) ==> op.requires((out,)),
        ensures
            match self.sink() {
                Some(op) => drains(self.fiber(), op, items@),
                None => items@.len() == 0,
            },
    {
        let ghost start = self.fiber;
        let ghost sink = self.sink;
        let mut iter = self;
        let ghost mut past: Seq<F> = Seq::empty();
        let mut items: Vec<Y> = Vec::new();
        let mut more = iter.sink.is_some();
        while more
            invariant
                iter.wf(),
                sink is None ==> items@.len() == 0 && !more,
                sink matches Some(op) ==> forall|items: Seq<Y>, end: F, out: F::Output|
                    #[trigger] completes(start, items, end, out) ==> op.requires((out,)),
                more ==> iter.sink() == sink && sink is Some && iter.fiber().budget() is Some
                    && yields(start, past.push(iter.fiber()), items@),
                !more && sink is Some ==> drains(start, sink->0, items@),
            decreases
                    (if more {
                        iter.fiber().budget()->0 + 1
                    } else {
                        0
                    }),
        {
            let ghost before = iter.fiber;
            assert(iter.sink_ready()) by {
                assert forall|end: F, out: F::Output| #[trigger]
                    before.step(&end, State::Done(out)) implies sink->0.requires((out,)) by {
                    assert(completes(start, items@, end, out));
                }
            }
            match iter.next() {
                Some(item) => {
                    proof {
                        past = past.push(before);
                    }
                    items.push(item);
                },
                None => {
                    proof {
                        past = past.push(before);
                    }
                    more = false;
                },
            }
            proof {
                if !more {
                    let out = choose|out: F::Output| #[trigger]
                        before.step(&iter.fiber(), State::Done(out)) && sink->0.ensures((out,), ());
                    assert(completes(start, items@, iter.fiber(), out));
                }
            }
        }
        items
    }
}

/// An iterator that is taken as a fiber and then viewed as a sequence again
/// gives back what it had: the items come out unchanged and in order, and
/// the sink receives the final output that went in.
pub fn round_trip<I, T, OP>(iter: I, output: T, sink: OP) -> (items: Vec<I::Item>) where
    I: Iterator + 'static,
    T: 'static,
    OP: FnOnce(T),

    requires
        iter.obeys_prophetic_iter_laws(),
        iter.decrease() is Some,
        sink.requires((output,)),
    ensures
        items@ == iter.remaining(),
        sink.ensures((output,), ()),
{
    let mut seq = IntoIter::new(FiberIter::new(iter, output), sink);
    let mut items: Vec<I::Item> = Vec::new();
    let mut more = true;
    while more
        invariant
            seq.wf(),
            more ==> seq.sink() == Some(sink) && seq.fiber().output() == Some(output),
            more ==> seq.fiber().source().obeys_prophetic_iter_laws(),
            more ==> seq.fiber().source().decrease() is Some,
            more ==> items@ + seq.fiber().source().remaining() == iter.remaining(),
            !more ==> items@ == iter.remaining() && sink.ensures((output,), ()),
            sink.requires((output,)),
        decreases
                (if more {
                    seq.fiber().source().decrease()->0 + 1
                } else {
                    0
                }),
    {
        let ghost before = seq.fiber();
        let ghost got = items@;
        match seq.next() {
            Some(item) => {
                items.push(item);
            },
            None => {
                more = false;
            },
        }
        assert(before.source().remaining().len() > 0 ==> items@
            + before.source().remaining().drop_first() =~= got + before.source().remaining());
        assert(before.source().remaining().len() == 0 ==> got + before.source().remaining()
            =~= got);
    }
    items
}

/// Extension trait for turning iterators into fibers.
pub trait FiberIterator: Iterator + Sized {
    /// Consume the iterator and create a fiber that lends each item of the
    /// iterator in turn, as a cofunction.
    fn into_fiber(self) -> (fiber: IterFbr<Self>)
        ensures
            fiber.source() == self,
            fiber.lent() is None,
            !fiber.retired(),
    ;

    /// Consume the iterator and create a fiber that will yield the values
    /// produced by the iterator.
    ///
    /// The fiber's final output is given as argument.
    fn into_fiber_with<T>(self, output: T) -> (fiber: FiberIter<Self, T>)
        ensures
            fiber.source() == self,
            fiber.output() == Some(output),
    ;

    /// Consume the iterator and create a fiber that will yield the values
    /// produced by the iterator.
    ///
    /// The fiber's final output is lazily evaluated at the end of iteration.
    fn into_fiber_lazy<T, OP>(self, f: OP) -> (fiber: FiberIterLazy<Self, T, OP>) where
        OP: FnOnce() -> T,

        ensures
            fiber.source() == self,
            fiber.thunk() == Some(f),
    ;
}

impl<I> FiberIterator for I where I: Iterator + Sized {
    fn into_fiber(self) -> (fiber: IterFbr<Self>) {
        IterFbr::new(self)
    }

    fn into_fiber_with<T>(self, output: T) -> (fiber: FiberIter<Self, T>) {
        FiberIter::new(self, output)
    }

    fn into_fiber_lazy<T, OP>(self, f: OP) -> (fiber: FiberIterLazy<Self, T, OP>) where
        OP: FnOnce() -> T,
     {
        FiberIterLazy::new(self, f)
    }
}

} // verus!
