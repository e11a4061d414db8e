use aramid::{CoFn, CoFnMut, CoFnOnce};

struct EvaluateAt<T>(T);

impl<T, R> CoFnOnce<T, R> for EvaluateAt<T> {
    fn call_once<F>(self, f: F) -> R
    where
        F: FnOnce(T) -> R,
    {
        f(self.0)
    }
}

impl<T, R> CoFnMut<T, R> for EvaluateAt<T> {
    fn call_mut<F>(&mut self, f: F) -> R
    where
        for<'a> F: FnOnce(&'a mut T) -> R,
    {
        f(&mut self.0)
    }
}

impl<T, R> CoFn<T, R> for EvaluateAt<T> {
    fn call<F>(&self, f: F) -> R
    where
        for<'a> F: FnOnce(&'a T) -> R,
    {
        f(&self.0)
    }
}

#[test]
fn call_pass_closure() {
    let cof = EvaluateAt(1);
    let f = |x: &i32| x * 2;

    assert_eq!(cof.call(f), 2);
    assert_eq!(cof.call(f), 2);
}

#[test]
fn call_pass_closure_mut_self() {
    let mut cof = EvaluateAt(1);
    let f = |x: &i32| x * 2;

    assert_eq!(cof.call(f), 2);
    cof.0 = 2;
    assert_eq!(cof.call(f), 4);
}

#[test]
fn call_borrow_closure() {
    let cof = EvaluateAt(1);
    let f = |x: &i32| x * 2;

    assert_eq!(cof.call(&f), 2);
    assert_eq!(cof.call(&f), 2);
}

#[test]
fn call_mut_closure() {
    let mut fac = 1;

    let mut f = |x: &i32| {
        fac *= 2;
        x * fac
    };

    let cof = EvaluateAt(1);

    assert_eq!(cof.call(&mut f), 2);
    assert_eq!(cof.call(&mut f), 4);
    assert_eq!(cof.call(f), 8);
}

#[test]
fn call_mut_closure_mut_self() {
    let mut fac = 1;

    let mut f = |x: &i32| {
        fac *= 2;
        x * fac
    };

    let mut cof = EvaluateAt(1);

    assert_eq!(cof.call(&mut f), 2);
    assert_eq!(cof.call(&mut f), 4);
    cof.0 = 0;
    assert_eq!(cof.call(f), 0);
}
