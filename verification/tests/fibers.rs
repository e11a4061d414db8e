use aramid::{Chain, Continuation, Engine, Fiber, FiberExt, State};

/// Counts down from its start value and reports how often it yielded.
struct Countdown {
    left:    u32,
    yielded: u32,
}

impl Countdown {
    fn new(steps: u32) -> Self {
        Self {
            left:    steps,
            yielded: 0,
        }
    }
}

impl Fiber for Countdown {
    type Output = u32;
    type Yield<'a> = u32;

    fn run(&mut self) -> State<u32, u32> {
        if self.left == 0 {
            State::Done(self.yielded)
        } else {
            self.left -= 1;
            self.yielded += 1;
            State::Yield(self.left)
        }
    }
}

#[test]
fn a_fiber_of_n_yields_gives_n_items_and_one_call_of_the_sink() {
    for steps in [0, 1, 5, 64] {
        let mut outputs = Vec::new();
        let mut iter = Countdown::new(steps).into_iter(|out| outputs.push(out));

        let mut items = Vec::new();
        while let Some(item) = iter.next() {
            items.push(item);
        }
        assert_eq!(iter.next(), None);
        drop(iter);

        assert_eq!(items.len() as u32, steps);
        assert_eq!(items, (0..steps).rev().collect::<Vec<_>>());
        assert_eq!(outputs, [steps]);
    }
}

#[test]
fn collect_of_a_fiber_of_n_yields() {
    let mut outputs = Vec::new();
    let items = Countdown::new(4).into_iter(|out| outputs.push(out)).collect();

    assert_eq!(items, [3, 2, 1, 0]);
    assert_eq!(outputs, [4]);
}

#[test]
fn complete_of_a_fiber_of_n_yields() {
    let mut fiber = Countdown::new(3);

    let mut sum = 0;
    let output = fiber.complete(|val| sum += val);

    assert_eq!(sum, 3);
    assert_eq!(output, 3);
}

/// A continuation that is a boxed closure: resuming it calls the closure.
struct Heap(Box<dyn FnOnce() -> State<(i32, Heap), i32>>);

impl Heap {
    fn new(op: impl FnOnce() -> State<(i32, Heap), i32> + 'static) -> Self {
        Heap(Box::new(op))
    }
}

impl Continuation for Heap {
    type Output = i32;
    type Yield = i32;

    fn resume(self) -> State<(i32, Heap), i32> {
        (self.0)()
    }
}

/// Suspend with `value`, then continue with the closure `op`, put on the heap.
fn continue_with(
    value: i32,
    op: impl FnOnce() -> State<(i32, Heap), i32> + 'static,
) -> State<(i32, Heap), i32> {
    aramid::continue_with(value, Heap::new(op))
}

#[test]
fn continuation_chain_yields_once_per_closure() {
    let chain = Heap::new(|| continue_with(11, || continue_with(55, || State::Done(5))));
    let mut fiber = Engine::new(chain);

    assert_eq!(fiber.run(), State::Yield(11));
    assert_eq!(fiber.run(), State::Yield(55));
    assert_eq!(fiber.run(), State::Done(5));
}

#[test]
fn continuation_closures_run_only_when_resumed() {
    let log = std::rc::Rc::new(std::cell::RefCell::new(Vec::new()));
    let (first, second) = (log.clone(), log.clone());
    let chain = Heap::new(move || {
        first.borrow_mut().push("first");
        continue_with(1, move || {
            second.borrow_mut().push("second");
            State::Done(2)
        })
    });
    let mut fiber = Engine::new(chain);
    assert!(log.borrow().is_empty());

    assert_eq!(fiber.run(), State::Yield(1));
    assert_eq!(*log.borrow(), ["first"]);
    assert_eq!(fiber.run(), State::Done(2));
    assert_eq!(*log.borrow(), ["first", "second"]);
}

#[test]
fn continuation_chain_of_any_length() {
    fn count_to(from: i32, to: i32) -> Heap {
        Heap::new(move || {
            if from < to {
                aramid::continue_with(from, count_to(from + 1, to))
            } else {
                State::Done(to)
            }
        })
    }
    let mut fiber = Engine::new(count_to(0, 1000));

    let mut sum = 0;
    let output = fiber.complete(|val| sum += val);

    assert_eq!(sum, 499500);
    assert_eq!(output, 1000);
}

#[test]
fn continue_with_is_a_yield_of_value_and_next() {
    let state: State<(u8, &str), ()> = aramid::continue_with(3, "next");
    assert_eq!(state, State::Yield((3, "next")));
}

#[test]
fn chain_suspends_with_each_value_and_finishes_with_the_result() {
    let chain = Chain::suspend(11, Chain::suspend(55, Chain::finish(5)));
    let mut fiber = Engine::new(chain);

    assert_eq!(fiber.run(), State::Yield(11));
    assert_eq!(fiber.run(), State::Yield(55));
    assert_eq!(fiber.run(), State::Done(5));
}

#[test]
fn chain_resumes_link_by_link() {
    let chain: Chain<u8, char> = Chain::suspend(1, Chain::finish('r'));

    let State::Yield((value, rest)) = chain.resume() else {
        panic!("a chain with a value suspends");
    };
    assert_eq!(value, 1);
    let State::Done(result) = rest.resume() else {
        panic!("a chain without values finishes");
    };
    assert_eq!(result, 'r');
}

