use std::rc::Rc;

use yewdux::dispatch::{get, reduce, reduce_mut, subscribe};
use yewdux::{Context, Store};

#[derive(Clone, PartialEq, Eq, Debug)]
struct TestState(u32);
impl Store for TestState {
    fn new(_cx: &mut Context<Self>) -> Self {
        Self(0)
    }

    fn should_notify(&self, other: &Self) -> bool {
        self != other
    }
}

#[derive(PartialEq, Eq)]
struct TestStateNoClone(u32);
impl Store for TestStateNoClone {
    fn new(_cx: &mut Context<Self>) -> Self {
        Self(0)
    }

    fn should_notify(&self, other: &Self) -> bool {
        self != other
    }
}

/// Whether any notification due on `cx` reaches the subscriber `token`.
fn reaches(cx: &mut Context<TestState>, token: u64) -> bool {
    cx.take_notifications()
        .iter()
        .any(|n| n.subscribers.iter().any(|(_, t)| *t == token))
}

#[test]
fn apply_no_clone() {
    let mut cx = Context::<TestStateNoClone>::new();
    reduce(&mut cx, |_: Rc<TestStateNoClone>| Rc::new(TestStateNoClone(1)));
}

#[test]
fn reduce_changes_value() {
    let mut cx = Context::<TestState>::new();
    let old = get(&mut cx);

    reduce(&mut cx, |_: Rc<TestState>| Rc::new(TestState(1)));

    let new = get(&mut cx);

    assert!(old != new);
}

#[test]
fn reduce_mut_changes_value() {
    let mut cx = Context::<TestState>::new();
    let old = get(&mut cx);

    reduce_mut(&mut cx, |state: &mut TestState| *state = TestState(1));

    let new = get(&mut cx);

    assert!(old != new);
}

#[test]
fn reduce_does_not_require_static() {
    let val = "1".to_string();
    let mut cx = Context::<TestState>::new();
    reduce(&mut cx, |_: Rc<TestState>| Rc::new(TestState(val.parse().unwrap())));
}

#[test]
fn reduce_mut_does_not_require_static() {
    let val = "1".to_string();
    let mut cx = Context::<TestState>::new();
    reduce_mut(&mut cx, |state: &mut TestState| state.0 = val.parse().unwrap());
}

#[test]
fn set_changes_value() {
    let mut cx = Context::<TestState>::new();
    let old = get(&mut cx);

    yewdux::dispatch::set(&mut cx, TestState(1));

    let new = get(&mut cx);

    assert!(old != new);
}

#[test]
fn subscriber_is_notified() {
    let mut cx = Context::<TestState>::new();
    let mut flag;

    let called = std::cell::Cell::new(false);
    let _id = subscribe(&mut cx, &|_: Rc<TestState>| called.set(true), 1);
    flag = called.get();
    assert!(flag);

    flag = false;

    reduce_mut(&mut cx, |state: &mut TestState| state.0 += 1);
    flag = flag || reaches(&mut cx, 1);

    assert!(flag);
}

#[test]
fn subscriber_is_not_notified_when_state_is_same() {
    let mut cx = Context::<TestState>::new();
    let mut flag;

    // TestState(0)
    reduce_mut(&mut cx, |_: &mut TestState| {});

    let called = std::cell::Cell::new(false);
    let _id = subscribe(&mut cx, &|_: Rc<TestState>| called.set(true), 1);
    flag = called.get();
    assert!(flag);

    flag = false;

    // TestState(0)
    reduce_mut(&mut cx, |state: &mut TestState| state.0 = 0);
    flag = flag || reaches(&mut cx, 1);

    assert!(!flag);
}
