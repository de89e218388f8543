use std::any::Any;
use std::rc::Rc;

use yewdux::history::{
    apply_history, HistoryListener, HistoryMessage, HistoryStore, HistoryTargetListener,
};
use yewdux::listener::Listener;
use yewdux::store::Stores;
use yewdux::{Context, Store};

#[derive(Clone, PartialEq, Eq, Debug)]
struct Counter(u32);
impl Store for Counter {
    fn new(_cx: &mut Context<Self>) -> Self {
        Self(0)
    }

    fn should_notify(&self, other: &Self) -> bool {
        self != other
    }
}

/// Delivers the notifications due on the counter to its history listener.
fn record(target: &mut Context<Counter>, history: &mut Context<HistoryStore<Counter>>) {
    let listener = HistoryListener::<Counter>::new();
    for n in target.take_notifications() {
        listener.on_change(history, n.state);
    }
}

fn values(history: &mut Context<HistoryStore<Counter>>) -> (Vec<u32>, usize) {
    let h = history.get();
    let states = h.states().iter().map(|s| s.0).collect();
    (states, h.index())
}

fn counted_to(n: u32) -> (Context<Counter>, Context<HistoryStore<Counter>>) {
    let mut target = Context::<Counter>::new();
    let mut history = Context::<HistoryStore<Counter>>::new();
    target.subscribe_silent(1);
    for i in 1..=n {
        target.set(Counter(i));
        record(&mut target, &mut history);
    }
    (target, history)
}

#[test]
fn history_records_changes() {
    let (_, mut history) = counted_to(3);
    assert_eq!(values(&mut history), (vec![0, 1, 2, 3], 3));
}

#[test]
fn history_undo_sets_store() {
    let (mut target, mut history) = counted_to(2);
    assert!(apply_history(&mut history, &mut target, HistoryMessage::Undo));
    assert_eq!(target.get().0, 1);
    assert_eq!(values(&mut history), (vec![0, 1, 2], 1));
    // The change the undo made is the current state already: nothing is recorded.
    record(&mut target, &mut history);
    assert_eq!(values(&mut history), (vec![0, 1, 2], 1));
}

#[test]
fn history_undo_then_redo_returns() {
    let (mut target, mut history) = counted_to(2);
    apply_history(&mut history, &mut target, HistoryMessage::Undo);
    record(&mut target, &mut history);
    assert!(apply_history(&mut history, &mut target, HistoryMessage::Redo));
    record(&mut target, &mut history);
    assert_eq!(target.get().0, 2);
    assert_eq!(values(&mut history), (vec![0, 1, 2], 2));
}

#[test]
fn history_undo_at_start_does_nothing() {
    let (mut target, mut history) = counted_to(0);
    assert!(!history.get().can_apply(&HistoryMessage::Undo));
    assert!(!apply_history(&mut history, &mut target, HistoryMessage::Undo));
    assert_eq!(values(&mut history), (vec![0], 0));
    assert_eq!(target.get().0, 0);
}

#[test]
fn history_change_after_undo_drops_redo() {
    let (mut target, mut history) = counted_to(3);
    apply_history(&mut history, &mut target, HistoryMessage::Undo);
    record(&mut target, &mut history);
    apply_history(&mut history, &mut target, HistoryMessage::Undo);
    record(&mut target, &mut history);
    assert_eq!(values(&mut history), (vec![0, 1, 2, 3], 1));
    target.set(Counter(7));
    record(&mut target, &mut history);
    assert_eq!(values(&mut history), (vec![0, 1, 7], 2));
    assert!(!history.get().can_apply(&HistoryMessage::Redo));
}

#[test]
fn history_clear_keeps_current() {
    let (mut target, mut history) = counted_to(3);
    apply_history(&mut history, &mut target, HistoryMessage::Undo);
    record(&mut target, &mut history);
    assert!(history.get().can_apply(&HistoryMessage::Clear));
    assert!(!apply_history(&mut history, &mut target, HistoryMessage::Clear));
    assert_eq!(values(&mut history), (vec![2], 0));
    assert!(!history.get().can_apply(&HistoryMessage::Clear));
    assert_eq!(target.get().0, 2);
}

#[test]
fn history_jump_to() {
    let (mut target, mut history) = counted_to(3);
    assert!(history.get().can_apply(&HistoryMessage::JumpTo(1)));
    assert!(!history.get().can_apply(&HistoryMessage::JumpTo(3)));
    assert!(!history.get().can_apply(&HistoryMessage::JumpTo(4)));
    assert!(apply_history(&mut history, &mut target, HistoryMessage::JumpTo(1)));
    assert_eq!(target.get().0, 1);
    assert_eq!(values(&mut history).1, 1);
    assert!(!apply_history(&mut history, &mut target, HistoryMessage::JumpTo(9)));
    assert_eq!(values(&mut history).1, 1);
}

#[test]
fn history_store_with_state() {
    let h = HistoryStore::with_state(Rc::new(Counter(5)));
    assert_eq!(h.index(), 0);
    assert_eq!(h.current().0, 5);
    assert_eq!(h.states().len(), 1);
}

#[test]
fn history_notifies_every_change() {
    let mut history = Context::<HistoryStore<Counter>>::new();
    history.subscribe_silent(3);
    let mut target = Context::<Counter>::new();
    // Undo at the start leaves the history as it was, and is still reported.
    apply_history(&mut history, &mut target, HistoryMessage::Undo);
    assert_eq!(history.take_notifications().len(), 1);
}

#[test]
fn history_can_apply_exactly_when_it_changes() {
    let (_, mut history) = counted_to(2);
    let h = history.get();
    assert!(h.can_apply(&HistoryMessage::Undo));
    assert!(!h.can_apply(&HistoryMessage::Redo));
    assert!(h.can_apply(&HistoryMessage::Clear));
    assert!(h.can_apply(&HistoryMessage::JumpTo(0)));
    assert!(!h.can_apply(&HistoryMessage::JumpTo(2)));
    assert!(!h.can_apply(&HistoryMessage::JumpTo(3)));
    let single = HistoryStore::with_state(Rc::new(Counter(5)));
    assert!(!single.can_apply(&HistoryMessage::Undo));
    assert!(!single.can_apply(&HistoryMessage::Redo));
    assert!(!single.can_apply(&HistoryMessage::Clear));
    assert!(!single.can_apply(&HistoryMessage::JumpTo(0)));
}

#[test]
fn history_jump_out_of_range_does_nothing() {
    let (mut target, mut history) = counted_to(2);
    assert!(!apply_history(&mut history, &mut target, HistoryMessage::JumpTo(7)));
    assert_eq!(target.get().0, 2);
    assert_eq!(values(&mut history), (vec![0, 1, 2], 2));
}

/// Delivers the notifications due on the history to the listener that moves the store.
fn follow(history: &mut Context<HistoryStore<Counter>>, target: &mut Context<Counter>) {
    let listener = HistoryTargetListener::<Counter>::new();
    for n in history.take_notifications() {
        listener.on_change(target, n.state);
    }
}

#[test]
fn history_message_through_reduce_moves_store() {
    let (mut target, mut history) = counted_to(3);
    history.subscribe_silent(7);
    history.take_notifications();

    history.reduce(HistoryMessage::Undo);
    follow(&mut history, &mut target);
    assert_eq!(target.get().0, 2);
    assert_eq!(values(&mut history), (vec![0, 1, 2, 3], 2));

    // The change the undo made reaches the history, which records nothing and moves nothing.
    record(&mut target, &mut history);
    follow(&mut history, &mut target);
    assert_eq!(target.get().0, 2);
    assert_eq!(values(&mut history), (vec![0, 1, 2, 3], 2));

    history.reduce(HistoryMessage::JumpTo(0));
    follow(&mut history, &mut target);
    assert_eq!(target.get().0, 0);

    history.reduce(HistoryMessage::Redo);
    follow(&mut history, &mut target);
    assert_eq!(target.get().0, 1);
    assert_eq!(values(&mut history), (vec![0, 1, 2, 3], 1));
}

#[test]
fn history_clear_does_not_move_store() {
    let (mut target, mut history) = counted_to(2);
    history.subscribe_silent(7);
    history.take_notifications();
    history.reduce(HistoryMessage::Clear);
    assert!(!history.get().moved());
    follow(&mut history, &mut target);
    assert_eq!(target.get().0, 2);
    assert_eq!(values(&mut history), (vec![2], 0));
}

/// The stores of a small application: the counter.
struct Counters(Context<Counter>);
impl<S: Store> Stores<S> for Counters {
    fn get(&mut self) -> Rc<S> {
        let cx: &mut dyn Any = &mut self.0;
        match cx.downcast_mut::<Context<S>>() {
            Some(cx) => cx.get(),
            None => panic!("no such store"),
        }
    }
}

#[test]
fn history_starts_from_store_state() {
    let mut counters = Counters(Context::new());
    counters.0.set(Counter(5));
    let mut history = Context::<HistoryStore<Counter>>::new();
    history.get_with(&mut counters);
    assert_eq!(values(&mut history), (vec![5], 0));
}
