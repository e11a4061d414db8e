//! The continuation engine: fibers made of continuations.
//!
//! A continuation is the rest of a computation as a value. Resuming it uses
//! it up and either finishes with a final result, or suspends: it hands out
//! a value together with the continuation to resume next. Chaining
//! continuations gives a fiber whose states need not be known in advance.
use vstd::prelude::*;
use crate::fiber::{plays, Fiber};
use crate::state::State;

verus! {

/// The rest of a computation, resumed by value.
pub trait Continuation: Sized {
    /// What the computation hands out when it suspends.
    type Yield;

    /// What the computation hands out when it finishes.
    type Output;

    /// What resuming `self` may produce.
    open spec fn resumes(&self, out: State<(Self::Yield, Self), Self::Output>) -> bool {
        true
    }

    /// A bound on the number of suspensions that are still to come, where the
    /// continuation knows one.
    open spec fn depth(&self) -> Option<nat> {
        None
    }

    /// Run the computation up to its next suspension point, or to its end.
    fn resume(self) -> (out: State<(Self::Yield, Self), Self::Output>)
        ensures
            self.resumes(out),
            out matches State::Yield((_, next)) ==> (self.depth() is Some ==> next.depth() is Some
                && next.depth()->0 < self.depth()->0),
    ;
}

/// Suspend with `value`, then continue with `next`: the state that a
/// continuation returns to yield `value` and go on as `next`.
pub fn continue_with<Y, K, R>(value: Y, next: K) -> (out: State<(Y, K), R>)
    ensures
        out == State::<(Y, K), R>::Yield((value, next)),
{
    State::Yield((value, next))
}

/// A fiber that runs a chain of continuations, one per step.
#[derive(Debug)]
pub struct Engine<K: Continuation> {
    next: Option<K>,
}

impl<K: Continuation> Engine<K> {
    /// The continuation that the next step will resume, if the fiber has not
    /// finished.
    pub closed spec fn pending(&self) -> Option<K> {
        self.next
    }

    /// A running fiber whose first step resumes `first`.
    pub fn new(first: K) -> (fiber: Self)
        ensures
            fiber.pending() == Some(first),
    {
        Self { next: Some(first) }
    }
}

impl<K: Continuation + 'static> Fiber for Engine<K> {
    type Yield<'a> = K::Yield;

    type Output = K::Output;

    /// The fiber runs as long as a continuation is pending.
    open spec fn running(&self) -> bool {
        self.pending() is Some
    }

    /// The budget is the depth of the pending continuation.
    open spec fn budget(&self) -> Option<nat> {
        match self.pending() {
            Some(k) => k.depth(),
            None => None,
        }
    }

    /// A step resumes the pending continuation. If that suspends, the value
    /// is yielded and the continuation that came with it is pending next; if
    /// it finishes, so does the fiber.
    open spec fn step<'a>(&self, next: &Self, out: State<K::Yield, K::Output>) -> bool {
        &&& self.pending() matches Some(k)
        &&& match out {
            State::Yield(value) => {
                &&& next.pending() matches Some(rest)
                &&& k.resumes(State::Yield((value, rest)))
            },
            State::Done(result) => {
                &&& next.pending() is None
                &&& k.resumes(State::Done(result))
            },
        }
    }

    /// Resume the pending continuation.
    fn run(&mut self) -> (out: State<K::Yield, K::Output>) {
        match self.next.take().unwrap().resume() {
            State::Yield((value, rest)) => {
                self.next = Some(rest);
                State::Yield(value)
            },
            State::Done(result) => State::Done(result),
        }
    }
}

/// A chain of continuations that is spelled out as data: the values to
/// suspend with, one after the other, and the result to finish with.
///
/// Each link is held on the heap, so a chain can be as long as it needs to
/// be, and it can be put together while the program runs.
#[derive(Debug, PartialEq)]
pub enum Chain<Y, R> {
    /// Suspend with the value, then go on with the rest of the chain.
    Suspend(Y, Box<Chain<Y, R>>),
    /// Finish with the result.
    Finish(R),
}

impl<Y, R> Chain<Y, R> {
    /// The values that the chain suspends with, in order.
    pub open spec fn values(&self) -> Seq<Y>
        decreases self,
    {
        match self {
            Chain::Suspend(value, rest) => seq![*value] + rest.values(),
            Chain::Finish(_) => Seq::empty(),
        }
    }

    /// The result that the chain finishes with.
    pub open spec fn result(&self) -> R
        decreases self,
    {
        match self {
            Chain::Suspend(_, rest) => rest.result(),
            Chain::Finish(result) => *result,
        }
    }

    /// A chain that finishes at once.
    pub fn finish(result: R) -> (chain: Self)
        ensures
            chain == Chain::<Y, R>::Finish(result),
    {
        Chain::Finish(result)
    }

    /// A chain that suspends with `value` and then goes on as `rest`.
    pub fn suspend(value: Y, rest: Self) -> (chain: Self)
        ensures
            chain == Chain::<Y, R>::Suspend(value, Box::new(rest)),
            chain.values() == seq![value] + rest.values(),
            chain.result() == rest.result(),
    {
        Chain::Suspend(value, Box::new(rest))
    }
}

impl<Y, R> Continuation for Chain<Y, R> {
    type Yield = Y;

    type Output = R;

    /// Resuming a chain takes its first link off.
    open spec fn resumes(&self, out: State<(Y, Self), R>) -> bool {
        match self {
            Chain::Suspend(value, rest) => out == State::<(Y, Self), R>::Yield((*value, **rest)),
            Chain::Finish(result) => out == State::<(Y, Self), R>::Done(*result),
        }
    }

    /// A chain suspends as often as it has values.
    open spec fn depth(&self) -> Option<nat> {
        Some(self.values().len())
    }

    fn resume(self) -> (out: State<(Y, Self), R>) {
        match self {
            Chain::Suspend(value, rest) => continue_with(value, *rest),
            Chain::Finish(result) => State::Done(result),
        }
    }
}

/// A fiber that runs a chain yields the values of the chain, in order, and
/// then finishes with the result of the chain.
pub proof fn lemma_engine_plays_chain<Y: 'static, R: 'static>(
    fiber: Engine<Chain<Y, R>>,
    chain: Chain<Y, R>,
)
    requires
        fiber.pending() == Some(chain),
    ensures
        plays(fiber, chain.values(), chain.result()),
    decreases chain,
{
    assert forall|next: Engine<Chain<Y, R>>, out: State<Y, R>| #[trigger]
        fiber.step(&next, out) implies if chain.values().len() == 0 {
        out == State::<Y, R>::Done(chain.result())
    } else {
        out == State::<Y, R>::Yield(chain.values()[0]) && plays(
            next,
            chain.values().drop_first(),
            chain.result(),
        )
    } by {
        match chain {
            Chain::Suspend(value, rest) => {
                assert(chain.values().drop_first() =~= rest.values());
                lemma_engine_plays_chain(next, *rest);
            },
            Chain::Finish(result) => {},
        }
    }
}

} // verus!
