use std::cell::Cell;
use std::rc::Rc;

use yewdux::listener::{init_listener, Listener};
use yewdux::{Context, Store};

#[derive(Clone, PartialEq, Eq, Debug)]
struct TestState(u32);
impl Store for TestState {
    fn new(_cx: &mut Context<Self>) -> Self {
        Self(0)
    }

    fn should_notify(&self, other: &Self) -> bool {
        self != other
    }
}

#[derive(Clone)]
struct TestListener(Rc<Cell<u32>>);
impl Listener for TestListener {
    type Store = TestState;
    type Target = ();

    fn on_change(&self, _target: &mut (), state: Rc<Self::Store>) {
        self.0.set(state.0);
    }
}

#[derive(Clone)]
struct AnotherTestListener(Rc<Cell<u32>>);
impl Listener for AnotherTestListener {
    type Store = TestState;
    type Target = ();

    fn on_change(&self, _target: &mut (), state: Rc<Self::Store>) {
        self.0.set(state.0);
    }
}

#[derive(Clone, PartialEq, Eq)]
struct TestState2;
impl Store for TestState2 {
    fn new(cx: &mut Context<Self>) -> Self {
        init_listener(|| TestListener2, cx, 1);
        Self
    }

    fn should_notify(&self, other: &Self) -> bool {
        self != other
    }
}

#[derive(Clone)]
struct TestListener2;
impl Listener for TestListener2 {
    type Store = TestState2;
    type Target = ();

    fn on_change(&self, _target: &mut (), _state: Rc<Self::Store>) {}
}

#[derive(Clone, PartialEq, Eq)]
struct TestStateRecursive(u32);
impl Store for TestStateRecursive {
    fn new(_cx: &mut Context<Self>) -> Self {
        Self(0)
    }

    fn should_notify(&self, other: &Self) -> bool {
        self != other
    }
}

#[derive(Clone)]
struct TestListenerRecursive;
impl Listener for TestListenerRecursive {
    type Store = TestStateRecursive;
    type Target = Context<TestStateRecursive>;

    fn on_change(&self, cx: &mut Context<TestStateRecursive>, state: Rc<Self::Store>) {
        if state.0 < 10 {
            cx.reduce_mut(|state: &mut TestStateRecursive| state.0 += 1);
        }
    }
}

/// Delivers the due notifications of `cx` to the listeners, by token, until none are due.
fn deliver(cx: &mut Context<TestState>, listeners: &[(u64, &dyn Fn(Rc<TestState>))]) {
    loop {
        let due = cx.take_notifications();
        if due.is_empty() {
            break;
        }
        for n in due {
            for (_, token) in n.subscribers.iter() {
                for (t, listener) in listeners {
                    if t == token {
                        listener(Rc::clone(&n.state));
                    }
                }
            }
        }
    }
}

#[test]
fn recursion() {
    let mut cx = Context::<TestStateRecursive>::new();
    let listener = init_listener(|| TestListenerRecursive, &mut cx, 1).unwrap();
    cx.reduce_mut(|state: &mut TestStateRecursive| state.0 = 1);
    loop {
        let due = cx.take_notifications();
        if due.is_empty() {
            break;
        }
        for n in due {
            listener.on_change(&mut cx, n.state);
        }
    }
    assert_eq!(cx.get().0, 10);
}

#[test]
fn listener_is_called() {
    let mut cx = Context::<TestState>::new();
    let listener = TestListener(Default::default());

    let l = init_listener(|| listener.clone(), &mut cx, 1).unwrap();

    cx.reduce_mut(|state: &mut TestState| state.0 = 1);
    deliver(&mut cx, &[(1, &|s| l.on_change(&mut (), s))]);

    assert_eq!(listener.0.get(), 1)
}

#[test]
fn listener_is_not_replaced() {
    let mut cx = Context::<TestState>::new();
    let listener1 = TestListener(Default::default());
    let listener2 = TestListener(Default::default());

    let l1 = init_listener(|| listener1.clone(), &mut cx, 1).unwrap();

    cx.reduce_mut(|state: &mut TestState| state.0 = 1);
    deliver(&mut cx, &[(1, &|s| l1.on_change(&mut (), s))]);

    assert_eq!(listener1.0.get(), 1);

    let l2 = init_listener(|| listener2.clone(), &mut cx, 2);
    assert!(l2.is_none());

    cx.reduce_mut(|state: &mut TestState| state.0 = 2);
    deliver(&mut cx, &[(1, &|s| l1.on_change(&mut (), s))]);

    assert_eq!(listener1.0.get(), 2);
    assert_eq!(listener2.0.get(), 0);
}

#[test]
fn listener_of_different_type_is_not_replaced() {
    let mut cx = Context::<TestState>::new();
    let listener1 = TestListener(Default::default());
    let listener2 = AnotherTestListener(Default::default());

    let l1 = init_listener(|| listener1.clone(), &mut cx, 1).unwrap();

    cx.reduce_mut(|state: &mut TestState| state.0 = 1);
    deliver(&mut cx, &[(1, &|s| l1.on_change(&mut (), s))]);

    assert_eq!(listener1.0.get(), 1);

    let l2 = init_listener(|| listener2.clone(), &mut cx, 2).unwrap();

    cx.reduce_mut(|state: &mut TestState| state.0 = 2);
    deliver(
        &mut cx,
        &[(1, &|s| l1.on_change(&mut (), s)), (2, &|s| l2.on_change(&mut (), s))],
    );

    assert_eq!(listener1.0.get(), 2);
    assert_eq!(listener2.0.get(), 2);
}

#[test]
fn can_init_listener_from_store() {
    let mut cx = Context::<TestState2>::new();
    cx.get();
}

#[test]
fn init_listener_twice_makes_listener_once() {
    let mut cx = Context::<TestState>::new();
    let mut made = 0;
    assert!(init_listener(|| { made += 1; TestListener(Default::default()) }, &mut cx, 1).is_some());
    assert!(init_listener(|| { made += 1; TestListener(Default::default()) }, &mut cx, 2).is_none());
    assert_eq!(made, 1);
    assert_eq!(cx.subscriber_count(), 1);
}
