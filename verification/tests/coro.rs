use aramid::{CoFn, Fiber, State};

struct MyCoro<'a, T>(&'a T);

impl<'a, T, R> CoFn<T, R> for MyCoro<'a, T> {
    fn call<F>(&self, f: F) -> R
    where
        for<'any> F: FnOnce(&'any T) -> R,
    {
        f(self.0)
    }
}

#[test]
fn coro_impl_01() {
    let a = MyCoro(&55.5);
    let f = |x: &f64| x / 5.;
    assert_eq!(a.call(f), 11.1);
}

#[test]
fn coro_impl_02() {
    let a = MyCoro(&55.5);
    let mut res = 0.;
    let f = |x: &f64| {
        res = x / 5.;
    };
    a.call(f);
    assert_eq!(res, 11.1);
}

struct MyFiber<T>(T);

impl Fiber for MyFiber<u8> {
    type Output = ();
    type Yield<'a>
        = MyCoro<'a, u8>
    where
        Self: 'a;

    fn run(&mut self) -> State<Self::Yield<'_>, Self::Output> {
        if self.0 == 0 {
            State::Done(())
        } else {
            self.0 -= 1;
            let coro = MyCoro(&self.0);
            State::Yield(coro)
        }
    }
}

#[test]
fn my_fiber_01() {
    let mut fbr = MyFiber(3u8);
    let f = |x: &u8| -(*x as i8);
    let f2 = |x: &u8| *x == 0;

    let cof = fbr.run().unwrap();
    assert_eq!(cof.call(f), -2);
    assert!(!cof.call(f2));
    let cof2 = fbr.run().unwrap();
    assert_eq!(cof2.call(f), -1);
}
