use aramid::{CoFn, CoFnMut, CoFnOnce, Eval};

#[test]
fn eval_evaluates_functions_at_its_argument() {
    let coro = Eval::from(2);
    let f = |x: &_| x * 2;
    let g = |x: &_| x * 3;

    assert_eq!(coro.call(f), 4);
    assert_eq!(coro.call(g), 6);
}

#[test]
fn take_gives_the_held_value() {
    let coro = Eval::from(String::from("held"));
    assert_eq!(coro.take(), "held");
}

#[test]
fn as_ref_and_as_mut_reach_the_held_value() {
    let mut coro = Eval::from(3);
    assert_eq!(coro.as_ref(), &3);

    *coro.as_mut() += 4;
    assert_eq!(coro.as_ref(), &7);
    assert_eq!(coro.take(), 7);
}

#[test]
fn default_holds_the_default_value() {
    let coro = Eval::<u16>::default();
    assert_eq!(coro.take(), 0);
    assert_eq!(Eval::<u16>::default(), Eval::from(0));
}

#[test]
fn call_mut_keeps_what_the_operator_wrote() {
    let mut coro = Eval::from(vec![1, 2]);

    let len = coro.call_mut(|v: &mut Vec<i32>| {
        v.push(3);
        v.len()
    });
    assert_eq!(len, 3);
    assert_eq!(coro.take(), vec![1, 2, 3]);
}

#[test]
fn call_once_hands_the_value_over() {
    let coro = Eval::from(String::from("ab"));
    let joined = coro.call_once(|s: String| s + "cd");
    assert_eq!(joined, "abcd");
}

#[test]
fn a_shared_reference_lends_like_its_target() {
    let coro = Eval::from(5);
    let by_ref = &coro;

    assert_eq!(CoFn::call(&by_ref, |x: &i32| x + 1), 6);
    assert_eq!(coro.call(|x: &i32| x + 1), 6);
}

#[test]
fn a_mutable_reference_lends_like_its_target() {
    let mut coro = Eval::from(5);
    let mut by_mut = &mut coro;

    assert_eq!(CoFn::call(&by_mut, |x: &i32| x + 1), 6);
    assert_eq!(CoFnMut::call_mut(&mut by_mut, |x: &mut i32| {
        *x = 8;
        *x + 1
    }), 9);
    assert_eq!(coro.take(), 8);
}
