//! The outcome of one step of a fiber.
use vstd::prelude::*;
use crate::fiber::Fiber;

verus! {

/// Fiber state: what one step of a fiber produced.
#[derive(Debug, PartialEq)]
#[must_use]
pub enum State<Y, R> {
    /// Yielded value
    Yield(Y),
    /// Done processing
    Done(R),
}

impl<Y, R> State<Y, R> {
    /// Unwrap the value wrapped in `Yield`.
    ///
    /// The state must be `Yield`: unwrapping a `Done` is a programming error.
    #[inline]
    pub fn unwrap(self) -> (yld: Y)
        requires
            self is Yield,
        ensures
            self == State::<Y, R>::Yield(yld),
    {
        self.expect("should be Yield")
    }

    /// Unwrap the value wrapped in `Yield`: `unwrap` under the name that says
    /// which variant is meant.
    #[inline]
    pub fn unwrap_yield(self) -> (yld: Y)
        requires
            self is Yield,
        ensures
            self == State::<Y, R>::Yield(yld),
    {
        self.expect("should be Yield")
    }

    /// Unwrap the value wrapped in `Yield`; the message names the caller's
    /// expectation.
    ///
    /// The state must be `Yield`. A caller outside the verifier's reach that
    /// breaks this gets a panic that carries `msg`.
    #[inline]
    pub fn expect(self, msg: &str) -> (yld: Y)
        requires
            self is Yield,
        ensures
            self == State::<Y, R>::Yield(yld),
    {
        match self {
            State::Yield(yld) => yld,
            State::Done(_) => Option::<Y>::None.expect(msg),
        }
    }

    /// Unwrap the value wrapped in `Done`.
    ///
    /// The state must be `Done`: unwrapping a `Yield` is a programming error.
    #[inline]
    pub fn unwrap_done(self) -> (out: R)
        requires
            self is Done,
        ensures
            self == State::<Y, R>::Done(out),
    {
        self.expect_done("should be Done")
    }

    /// Unwrap the value wrapped in `Done`; the message names the caller's
    /// expectation.
    ///
    /// The state must be `Done`. A caller outside the verifier's reach that
    /// breaks this gets a panic that carries `msg`.
    #[inline]
    pub fn expect_done(self, msg: &str) -> (out: R)
        requires
            self is Done,
        ensures
            self == State::<Y, R>::Done(out),
    {
        match self {
            State::Yield(_) => Option::<R>::None.expect(msg),
            State::Done(out) => out,
        }
    }

    /// Return true, if the state is `Yield`, otherwise return false.
    pub fn is_yield(&self) -> (b: bool)
        ensures
            b == (self is Yield),
    {
        match self {
            State::Yield(_) => true,
            State::Done(_) => false,
        }
    }

    /// Return true, if the state is `Done`, otherwise return false.
    pub fn is_done(&self) -> (b: bool)
        ensures
            b == (self is Done),
    {
        match self {
            State::Yield(_) => false,
            State::Done(_) => true,
        }
    }

    /// Return the value of `Done`, or apply operator `OP` on the value of
    /// `Yield`.
    ///
    /// On `Done` the operator is not called and the result lends the final
    /// value: what the caller writes through it is what the state holds
    /// afterwards. On `Yield` the operator sees the yielded value in place
    /// and the result is `None`.
    pub fn done_or<OP>(&mut self, f: OP) -> (res: Option<&mut R>) where OP: FnOnce(&mut Y)
        requires
            *old(self) matches State::Yield(yld) ==> forall|m: &mut Y|
                *m == yld ==> #[trigger] f.requires((m,)),
        ensures
            match *old(self) {
                State::Done(out) => {
                    &&& res matches Some(r)
                    &&& *r == out
                    &&& *final(self) == State::<Y, R>::Done(*final(r))
                },
                State::Yield(yld) => {
                    &&& res is None
                    &&& exists|m: &mut Y|
                        {
                            &&& *m == yld
                            &&& *final(self) == State::<Y, R>::Yield(*final(m))
                            &&& #[trigger] f.ensures((m,), ())
                        }
                },
            },
    {
        match self {
            State::Done(out) => Some(out),
            State::Yield(fbr) => {
                f(fbr);
                None
            },
        }
    }

    /// Return the result of `OP` applied on the value of `Yield`.
    ///
    /// Return `None` if the value is `Done`; the operator is then not called
    /// and the state is unchanged.
    pub fn yield_and<OP, T>(&mut self, f: OP) -> (res: Option<T>) where OP: FnOnce(&mut Y) -> T
        requires
            *old(self) matches State::Yield(yld) ==> forall|m: &mut Y|
                *m == yld ==> #[trigger] f.requires((m,)),
        ensures
            *old(self) is Done ==> res is None && *final(self) == *old(self),
            *old(self) matches State::Yield(yld) ==> exists|m: &mut Y, t: T|
                {
                    &&& res == Some(t)
                    &&& *m == yld
                    &&& *final(self) == State::<Y, R>::Yield(*final(m))
                    &&& #[trigger] f.ensures((m,), t)
                },
    {
        match self {
            State::Yield(fbr) => {
                let t = f(fbr);
                Some(t)
            },
            State::Done(_) => None,
        }
    }
}

impl<F: Fiber, R> State<F, R> {
    /// Drive a fiber through the state that holds it.
    ///
    /// If the state is `Yield`, run the fiber in it by one step and return
    /// the state that this step produced. If the state is `Done`, return
    /// `None` and leave it as it is.
    pub fn advance(&mut self) -> (res: Option<State<F::Yield<'_>, F::Output>>)
        requires
            *old(self) matches State::Yield(fbr) ==> fbr.running(),
        ensures
            match *old(self) {
                State::Done(_) => res is None && *final(self) == *old(self),
                State::Yield(fbr) => {
                    &&& res matches Some(out)
                    &&& *final(self) matches State::Yield(next)
                    &&& fbr.step(&next, out)
                    &&& next.running() == (out is Yield)
                    &&& out is Yield && fbr.budget() is Some ==> next.budget() is Some
                        && next.budget()->0 < fbr.budget()->0
                    &&& exists|m: &mut F|
                        {
                            &&& *m == fbr
                            &&& *final(m) == next
                            &&& #[trigger] call_ensures(F::run, (m,), out)
                        }
                },
            },
    {
        match self {
            State::Yield(fbr) => Some(fbr.run()),
            State::Done(_) => None,
        }
    }
}

} // verus!
