//! The fiber protocol: a computation that is advanced one step at a time.
//!
//! A fiber is created running. Each call of [`Fiber::run`] performs one unit
//! of work and reports it as a [`State`]: `Yield` while the fiber goes on,
//! `Done` when it retires. A retired fiber is not run again: `run` asks for a
//! running fiber, and the fibers of this crate panic on a caller outside the
//! verifier's reach that runs them after `Done`.
//!
//! Contracts speak of a fiber through three functions of its value:
//! whether it is [`running`](Fiber::running), how one step relates the value
//! before, the value after and the outcome ([`step`](Fiber::step)), and a
//! bound on the steps that are left ([`budget`](Fiber::budget)). A whole run
//! is a sequence of such steps, see [`yields`] and [`completes`].
//!
//! An implementation that is to be verified states these three functions and
//! proves `run` against them. Verus takes no `where` clause on the definition
//! of `Yield`, so the type parameters of such an implementation are
//! `'static`. An implementation in plain Rust writes `run` alone.
//!
//! Where the type of a fiber holds the type of a closure, verified code has
//! to name that type by a type parameter: the compiler cannot work out the
//! type of `Yield` under a lifetime for a closure type that is written in
//! place.
use vstd::prelude::*;
use crate::iterators::IntoIter;
use crate::state::State;

verus! {

/// A synthetic coroutine: repeated stepping produces a sequence of yields
/// followed by one final output.
///
/// The yielded value may borrow from the fiber: it is lent for the time
/// between two steps and has to be given up before the next one.
pub trait Fiber {
    /// What a non-final step hands to the driver.
    type Yield<'a> where Self: 'a;

    /// What the final step hands to the driver.
    type Output;

    /// Whether the fiber may be advanced: true from creation until a step
    /// reports `Done`.
    open spec fn running(&self) -> bool {
        true
    }

    /// A bound on the number of yields that are still to come, where the
    /// fiber knows one. A fiber with a bound can be driven to completion.
    open spec fn budget(&self) -> Option<nat> {
        None
    }

    /// The transition relation: one step may lead from `self` to `next` with
    /// outcome `out`.
    open spec fn step<'a>(&self, next: &Self, out: State<Self::Yield<'a>, Self::Output>) -> bool {
        true
    }

    /// Advance the fiber by exactly one unit of work.
    ///
    /// The fiber must be running. It stays running exactly if the outcome is
    /// a `Yield`, and each yield uses up some of the budget.
    fn run(&mut self) -> (out: State<Self::Yield<'_>, Self::Output>)
        requires
            old(self).running(),
        ensures
            old(self).step(final(self), out),
            final(self).running() == (out is Yield),
            out is Yield && old(self).budget() is Some ==> final(self).budget() is Some
                && final(self).budget()->0 < old(self).budget()->0,
    ;
}

/// A run of yields: starting at `start`, the fiber passes through `states`
/// and yields `items` on the way, one per step.
///
/// `states` begins with `start` and has one entry more than `items`; its last
/// entry is the fiber after the last of these yields.
pub open spec fn yields<'a, F: Fiber>(start: F, states: Seq<F>, items: Seq<F::Yield<'a>>) -> bool {
    &&& states.len() == items.len() + 1
    &&& states[0] == start
    &&& forall|i: int|
        #![trigger items[i]]
        0 <= i < items.len() ==> states[i].step(&states[i + 1], State::Yield(items[i]))
}

/// A complete run: starting at `start`, the fiber yields `items`, in this
/// order, and then retires as `end` with the final output `out`.
pub open spec fn completes<'a, F: Fiber>(
    start: F,
    items: Seq<F::Yield<'a>>,
    end: F,
    out: F::Output,
) -> bool {
    exists|states: Seq<F>| #[trigger]
        yields(start, states, items) && states.last().step(&end, State::Done(out))
}

/// The fiber is known to yield exactly `script`, item by item, and then to
/// finish with `result`: whatever step it takes is the next one of the
/// script.
pub open spec fn plays<'a, F: Fiber>(
    fiber: F,
    script: Seq<F::Yield<'a>>,
    result: F::Output,
) -> bool
    decreases script.len(),
{
    forall|next: F, out: State<F::Yield<'a>, F::Output>| #[trigger]
        fiber.step(&next, out) ==> if script.len() == 0 {
            out == State::<F::Yield<'a>, F::Output>::Done(result)
        } else {
            out == State::<F::Yield<'a>, F::Output>::Yield(script[0]) && plays(
                next,
                script.drop_first(),
                result,
            )
        }
}

/// The fiber is known to yield exactly `count` times and then to finish with
/// `result`: whatever step it takes is a yield while yields are left, and the
/// final one after that.
pub open spec fn yields_exactly<F: Fiber>(fiber: F, count: nat, result: F::Output) -> bool
    decreases count,
{
    forall|next: F, out: State<F::Yield<'_>, F::Output>| #[trigger]
        fiber.step(&next, out) ==> if count == 0 {
            out == State::<F::Yield<'_>, F::Output>::Done(result)
        } else {
            out is Yield && yields_exactly(next, (count - 1) as nat, result)
        }
}

/// A fiber that is known to yield exactly `count` times and finish with
/// `result` does so on every complete run: the run has `count` yields and
/// the final output is `result`.
pub proof fn lemma_complete_run_yields_exactly<'a, F: Fiber>(
    fiber: F,
    count: nat,
    result: F::Output,
    items: Seq<F::Yield<'a>>,
    end: F,
    out: F::Output,
)
    requires
        yields_exactly(fiber, count, result),
        completes(fiber, items, end, out),
    ensures
        items.len() == count,
        out == result,
    decreases items.len(),
{
    let states = choose|states: Seq<F>| #[trigger]
        yields(fiber, states, items) && states.last().step(&end, State::Done(out));
    if items.len() > 0 {
        // The first step is a yield; the rest of the run is a run of the
        // fiber after that step.
        assert(fiber.step(&states[1], State::Yield(items[0])));
        let rest_states = states.drop_first();
        let rest_items = items.drop_first();
        assert(yields(states[1], rest_states, rest_items));
        lemma_complete_run_yields_exactly(
            states[1],
            (count - 1) as nat,
            result,
            rest_items,
            end,
            out,
        );
    }
}

/// A fiber that is known to yield `script` is known to yield exactly
/// `script.len()` times.
pub proof fn lemma_script_counts<'a, F: Fiber>(
    fiber: F,
    script: Seq<F::Yield<'a>>,
    result: F::Output,
)
    requires
        plays(fiber, script, result),
    ensures
        yields_exactly(fiber, script.len(), result),
    decreases script.len(),
{
    assert forall|next: F, out: State<F::Yield<'a>, F::Output>| #[trigger]
        fiber.step(&next, out) && script.len() > 0 implies yields_exactly(
        next,
        (script.len() - 1) as nat,
        result,
    ) by {
        lemma_script_counts(next, script.drop_first(), result);
    }
}

/// A fiber that is known to yield `script` and finish with `result` does so
/// on every complete run: the run has exactly `script.len()` yields, they are
/// the items of the script in order, and the final output is `result`.
pub proof fn lemma_complete_run_plays_script<'a, F: Fiber>(
    fiber: F,
    script: Seq<F::Yield<'a>>,
    result: F::Output,
    items: Seq<F::Yield<'a>>,
    end: F,
    out: F::Output,
)
    requires
        plays(fiber, script, result),
        completes(fiber, items, end, out),
    ensures
        items == script,
        out == result,
    decreases items.len(),
{
    let states = choose|states: Seq<F>| #[trigger]
        yields(fiber, states, items) && states.last().step(&end, State::Done(out));
    if items.len() > 0 {
        // The first step yields the head of the script; the rest of the run
        // is a run of the fiber after that step, which plays the tail.
        assert(fiber.step(&states[1], State::Yield(items[0])));
        let rest_states = states.drop_first();
        let rest_items = items.drop_first();
        assert(yields(states[1], rest_states, rest_items));
        lemma_complete_run_plays_script(
            states[1],
            script.drop_first(),
            result,
            rest_items,
            end,
            out,
        );
        assert(script =~= seq![script[0]] + script.drop_first());
    }
}

/// What a driver can do with any fiber.
pub trait FiberExt: Fiber + Sized {
    /// Drive the fiber to completion: run it step by step, hand every yield
    /// to `op`, and return the final output.
    ///
    /// The fiber must be running and have a budget, and `op` must accept
    /// whatever the fiber may yield on the way.
    fn complete<OP>(&mut self, op: OP) -> (out: Self::Output) where
        for <'a>OP: FnMut(Self::Yield<'a>),

        requires
            old(self).running(),
            old(self).budget() is Some,
            forall|states: Seq<Self>, items: Seq<Self::Yield<'_>>, i: int|
                #![trigger yields(*old(self), states, items), items[i]]
                yields(*old(self), states, items) && 0 <= i < items.len() ==> op.requires(
                    (items[i],),
                ),
        ensures
            !final(self).running(),
            exists|items: Seq<Self::Yield<'_>>|
                {
                    &&& #[trigger] completes(*old(self), items, *final(self), out)
                    &&& forall|i: int|
                        0 <= i < items.len() ==> op.ensures((#[trigger] items[i],), ())
                },
    ;

    /// View the fiber as the sequence of its yields; `sink` receives the
    /// final output when the sequence ends.
    fn into_iter<OP>(self, sink: OP) -> (iter: IntoIter<Self, OP>) where OP: FnOnce(Self::Output)
        requires
            self.running(),
        ensures
            iter.fiber() == self,
            iter.sink() == Some(sink),
            iter.wf(),
    ;
}

impl<F: Fiber> FiberExt for F {
    fn complete<OP>(&mut self, mut op: OP) -> (out: Self::Output) where
        for <'a>OP: FnMut(Self::Yield<'a>),
     {
        let ghost op0 = op;
        let ghost mut past: Seq<Self> = Seq::empty();
        let ghost mut items: Seq<Self::Yield<'_>> = Seq::empty();
        let mut done: Option<Self::Output> = None;
        while done.is_none()
            invariant
                op == op0,
                forall|states: Seq<Self>, items: Seq<Self::Yield<'_>>, i: int|
                    #![trigger yields(*old(self), states, items), items[i]]
                    yields(*old(self), states, items) && 0 <= i < items.len() ==> op.requires(
                        (items[i],),
                    ),
                forall|i: int| 0 <= i < items.len() ==> op.ensures((#[trigger] items[i],), ()),
                done is None ==> self.running() && self.budget() is Some && yields(
                    *old(self),
                    past.push(*self),
                    items,
                ),
                done matches Some(out) ==> !self.running() && yields(*old(self), past, items)
                    && past.last().step(self, State::Done(out)),
            decreases
                    (if done is None {
                        self.budget()->0 + 1
                    } else {
                        0
                    }),
        {
            let ghost before = *self;
            match self.run() {
                State::Yield(item) => {
                    proof {
                        past = past.push(before);
                        items = items.push(item);
                        assert(yields(*old(self), past.push(after_borrow(*self)), items));
                        assert(items[items.len() - 1] == item);
                    }
                    op(item);
                },
                State::Done(out) => {
                    proof {
                        past = past.push(before);
                    }
                    done = Some(out);
                },
            }
        }
        let out = done.unwrap();
        assert(completes(*old(self), items, *self, out));
        out
    }

    fn into_iter<OP>(self, sink: OP) -> (iter: IntoIter<Self, OP>) where OP: FnOnce(Self::Output) {
        IntoIter::new(self, sink)
    }
}

} // verus!
