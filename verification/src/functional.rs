//! The decisions behind the selector hooks: when the store counts as changed, and which
//! selected value is handed out.

use std::rc::Rc;

use vstd::prelude::*;

use crate::store::{notifies, Store};

verus! {

/// The version of the store that a selector has seen: advanced by one, wrapping, when the store
/// changed from the state seen last, as `should_notify` judges; else the same.
pub fn next_store_version<S: Store>(store: &S, last: &S, version: u32) -> (next: u32)
    ensures
        exists|changed: bool|
            #[trigger] notifies(*store, *last, changed) && (changed ==> next == (version + 1)
                % 0x1_0000_0000) && (!changed ==> next == version),
{
    let changed = store.should_notify(last);
    assert(notifies(*store, *last, changed));
    if changed {
        1u32.wrapping_add(version)
    } else {
        version
    }
}

/// The value a selector hands out: the value selected last where `is_eq` finds the new value
/// equal to it (which spares a re-render), else the new value, which then becomes the last
/// one (the flag says so).
pub fn select<R, E: Fn(&R, &R) -> bool>(value: Rc<R>, last: Option<Rc<R>>, is_eq: &E) -> (selected: (
    Rc<R>,
    bool,
))
    requires
        forall|a: &R, b: &R| #[trigger] is_eq.requires((a, b)),
    ensures
        last is None ==> selected == (value, true),
        last is Some ==> exists|same: bool|
            #[trigger] is_eq.ensures((&*value, &*last.unwrap()), same) && (same ==> selected == (
                last.unwrap(),
                false,
            )) && (!same ==> selected == (value, true)),
{
    match last {
        Some(last) => {
            if is_eq(&value, &last) {
                (last, false)
            } else {
                (value, true)
            }
        },
        None => (value, true),
    }
}

} // verus!
