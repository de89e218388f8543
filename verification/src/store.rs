//! Stores, and the reducers that change them.

use std::rc::Rc;

use vstd::prelude::*;

use crate::context::Context;

verus! {

/// State that is shared through a [`Context`].
pub trait Store: Sized + 'static {
    /// Creates this store. Runs the first time the store's state is needed, on the store's own
    /// context, which holds no state yet; what `new` leaves there (subscribers, notifications)
    /// stays. A listener is registered by the owner of the context, who delivers to it, not by
    /// `new`. A store that needs other stores of its application implements [`NewWith`].
    fn new(cx: &mut Context<Self>) -> Self;

    /// Indicate whether or not subscribers should be notified about this change. Usually this
    /// should be set to `self != old`.
    fn should_notify(&self, old: &Self) -> bool;
}

/// The stores of an application, as a store that is being created reaches the store `S`.
pub trait Stores<S: Store> {
    /// The state of the store `S`, which is created if it does not exist yet.
    fn get(&mut self) -> Rc<S>;
}

/// A store that reaches the other stores of its application, through `R`, while it is created
/// (see [`Context::get_with`]).
pub trait NewWith<R>: Store {
    /// Creates this store, with its own context and the other stores of the application at
    /// hand.
    fn new_with(cx: &mut Context<Self>, stores: &mut R) -> Self;
}

/// `should_notify` may return `r` for a change from `old` to `new`: where the store's
/// `should_notify` states its result, `r` is that result.
pub open spec fn notifies<S: Store>(new: S, old: S, r: bool) -> bool {
    call_ensures(S::should_notify, (&new, &old), r)
}

/// A change of state.
pub trait Reducer<S>: Sized {
    /// The states this reducer can be applied to: all of them, unless the reducer says
    /// otherwise.
    open spec fn spec_accepts(&self, state: S) -> bool {
        true
    }

    /// Whether applying this reducer to `old` may give `new`: any state, unless the reducer
    /// says otherwise.
    open spec fn spec_reduces(&self, old: S, new: S) -> bool {
        true
    }

    /// Mutate state.
    fn apply(self, state: Rc<S>) -> (new: Rc<S>)
        requires
            self.spec_accepts(*state),
        ensures
            self.spec_reduces(*state, *new),
    ;
}

/// Any function from state to state is a reducer.
impl<S, F: FnOnce(Rc<S>) -> Rc<S>> Reducer<S> for F {
    open spec fn spec_accepts(&self, state: S) -> bool {
        call_requires(*self, (Rc::new(state),))
    }

    open spec fn spec_reduces(&self, old: S, new: S) -> bool {
        call_ensures(*self, (Rc::new(old),), Rc::new(new))
    }

    fn apply(self, state: Rc<S>) -> (new: Rc<S>) {
        self(state)
    }
}

/// A reducer that replaces the state with a given one.
pub struct Replace<S>(pub Rc<S>);

impl<S> Reducer<S> for Replace<S> {
    open spec fn spec_accepts(&self, state: S) -> bool {
        true
    }

    open spec fn spec_reduces(&self, old: S, new: S) -> bool {
        new == *self.0
    }

    fn apply(self, state: Rc<S>) -> (new: Rc<S>) {
        self.0
    }
}

} // verus!
