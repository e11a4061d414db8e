//! Cofunctions: values that lend what they hold to a caller's operation.
//!
//! A cofunction gives no reference to what it holds out of its hands.
//! Instead it runs the operation it is given on what it holds, for the
//! duration of that one call, at one of three strengths: by value (once), by
//! mutable reference, or by shared reference.
//!
//! Contracts speak of what a cofunction holds as `held()`. An implementation
//! that is to be verified states it; one in plain Rust writes the call alone.
use vstd::prelude::*;
use vstd::std_specs::convert::FromSpecImpl;

verus! {

/// Cofunction that takes a by-value receiver.
pub trait CoFnOnce<T, R = ()>: Sized {
    /// The value that the holder passes to the operation.
    open spec fn held(&self) -> T {
        arbitrary()
    }

    /// Consume the holder, pass the held value to `f` by ownership and return
    /// what `f` returns.
    fn call_once<F>(self, f: F) -> (r: R) where F: FnOnce(T) -> R
        requires
            f.requires((self.held(),)),
        ensures
            f.ensures((self.held(),), r),
    ;
}

/// Cofunction that takes a mutable receiver.
pub trait CoFnMut<T, R = ()> {
    /// The value that the holder passes to the operation.
    open spec fn held(&self) -> T {
        arbitrary()
    }

    /// Pass the held value to `f` by mutable reference and return what `f`
    /// returns. What `f` leaves behind is what the holder holds afterwards.
    fn call_mut<F>(&mut self, f: F) -> (r: R) where for <'a>F: FnOnce(&'a mut T) -> R
        requires
            forall|m: &mut T| *m == old(self).held() ==> #[trigger] f.requires((m,)),
        ensures
            exists|m: &mut T|
                {
                    &&& *m == old(self).held()
                    &&& *final(m) == final(self).held()
                    &&& #[trigger] f.ensures((m,), r)
                },
    ;
}

/// Cofunction that takes an immutable receiver.
pub trait CoFn<T, R = ()> {
    /// The value that the holder passes to the operation.
    open spec fn held(&self) -> T {
        arbitrary()
    }

    /// Pass the held value to `f` by shared reference and return what `f`
    /// returns.
    fn call<F>(&self, f: F) -> (r: R) where for <'a>F: FnOnce(&'a T) -> R
        requires
            f.requires((&self.held(),)),
        ensures
            f.ensures((&self.held(),), r),
    ;
}

impl<T, R, Co> CoFn<T, R> for &Co where Co: CoFn<T, R> {
    open spec fn held(&self) -> T {
        (**self).held()
    }

    fn call<F>(&self, f: F) -> (r: R) where for <'a>F: FnOnce(&'a T) -> R {
        (**self).call(f)
    }
}

impl<T, R, Co> CoFn<T, R> for &mut Co where Co: CoFn<T, R> {
    open spec fn held(&self) -> T {
        (**self).held()
    }

    fn call<F>(&self, f: F) -> (r: R) where for <'a>F: FnOnce(&'a T) -> R {
        (**self).call(f)
    }
}

impl<T, R, Co> CoFnMut<T, R> for &mut Co where Co: CoFnMut<T, R> {
    open spec fn held(&self) -> T {
        (**self).held()
    }

    fn call_mut<F>(&mut self, f: F) -> (r: R) where for <'a>F: FnOnce(&'a mut T) -> R {
        (**self).call_mut(f)
    }
}

/// Evaluate functions at an argument.
///
/// `Eval` holds one value and lends it at all three strengths.
#[derive(Debug, PartialEq)]
pub struct Eval<T>(T);

impl<T> View for Eval<T> {
    type V = T;

    closed spec fn view(&self) -> T {
        self.0
    }
}

impl<T> Eval<T> {
    /// Give up the holder for the value it holds.
    pub fn take(self) -> (value: T)
        ensures
            value == self@,
    {
        self.0
    }

    /// A shared reference to the held value.
    pub fn as_ref(&self) -> (value: &T)
        ensures
            *value == self@,
    {
        &self.0
    }

    /// A mutable reference to the held value: what is written through it is
    /// what the holder holds afterwards.
    pub fn as_mut(&mut self) -> (value: &mut T)
        ensures
            *value == old(self)@,
            final(self)@ == *final(value),
    {
        &mut self.0
    }
}

impl<T> From<T> for Eval<T> {
    fn from(value: T) -> (eval: Self)
        ensures
            eval@ == value,
    {
        Self(value)
    }
}

impl<T> FromSpecImpl<T> for Eval<T> {
    open spec fn obeys_from_spec() -> bool {
        true
    }

    closed spec fn from_spec(value: T) -> Self {
        Eval(value)
    }
}

impl<T: Default> Default for Eval<T> {
    fn default() -> (eval: Self)
        ensures
            T::default.ensures((), eval@),
    {
        Self(T::default())
    }
}

impl<T, R> CoFnOnce<T, R> for Eval<T> {
    open spec fn held(&self) -> T {
        self@
    }

    fn call_once<F>(self, f: F) -> (r: R) where F: FnOnce(T) -> R {
        f(self.0)
    }
}

impl<T, R> CoFnMut<T, R> for Eval<T> {
    open spec fn held(&self) -> T {
        self@
    }

    fn call_mut<F>(&mut self, f: F) -> (r: R) where for <'a>F: FnOnce(&'a mut T) -> R {
        f(&mut self.0)
    }
}

impl<T, R> CoFn<T, R> for Eval<T> {
    open spec fn held(&self) -> T {
        self@
    }

    fn call<F>(&self, f: F) -> (r: R) where for <'a>F: FnOnce(&'a T) -> R {
        f(&self.0)
    }
}

} // verus!
