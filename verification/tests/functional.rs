use std::rc::Rc;

use yewdux::functional::{next_store_version, select};
use yewdux::{Context, Store};

#[derive(Clone, PartialEq)]
struct Counter(u32);

impl Store for Counter {
    fn new(_cx: &mut Context<Self>) -> Self {
        Counter(0)
    }

    fn should_notify(&self, old: &Self) -> bool {
        self != old
    }
}

#[test]
fn store_version_advances_on_change() {
    assert_eq!(next_store_version(&Counter(1), &Counter(0), 4), 5);
    assert_eq!(next_store_version(&Counter(1), &Counter(1), 4), 4);
}

#[test]
fn store_version_wraps() {
    assert_eq!(next_store_version(&Counter(1), &Counter(0), u32::MAX), 0);
}

#[test]
fn select_keeps_last_equal_value() {
    let last = Rc::new(3u32);
    let (selected, changed) = select(Rc::new(3u32), Some(Rc::clone(&last)), &|a: &u32, b: &u32| a == b);
    assert!(Rc::ptr_eq(&selected, &last));
    assert!(!changed);
}

#[test]
fn select_hands_out_new_value() {
    let value = Rc::new(4u32);
    let (selected, changed) = select(Rc::clone(&value), Some(Rc::new(3u32)), &|a: &u32, b: &u32| a == b);
    assert!(Rc::ptr_eq(&selected, &value));
    assert!(changed);
    let (selected, changed) = select(Rc::clone(&value), None, &|_: &u32, _: &u32| true);
    assert!(Rc::ptr_eq(&selected, &value));
    assert!(changed);
}
