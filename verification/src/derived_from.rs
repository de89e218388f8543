//! Stores derived from other stores: kept up to date by a listener on the source store.

use std::any::TypeId;
use std::marker::PhantomData;
use std::rc::Rc;

use vstd::prelude::*;

use crate::context::Context;
use crate::listener::{init_listener, listener_registration, type_id_is, Listener};
use crate::store::{Reducer, Store};
use crate::subscriber::slab_room;

verus! {

/// A store that is made anew from the state of the store `S` whenever that store changes.
pub trait DerivedFrom<S: Store>: Store {
    /// Creates a new instance of the derived store based on the current state of the source
    /// store.
    fn on_change(&self, state: Rc<S>) -> Self;
}

/// `DerivedFrom::on_change` may make `derived` from the derived state `current` and a state
/// of the source.
pub open spec fn derives<S: Store, D: DerivedFrom<S>>(current: D, state: Rc<S>, derived: D) -> bool {
    call_ensures(<D as DerivedFrom<S>>::on_change, (&current, state), derived)
}

/// A store that is updated in place from the state of the store `S` whenever that store
/// changes.
pub trait DerivedFromMut<S: Store>: Store + Clone {
    /// Updates the derived store based on the current state of the source store.
    fn on_change(&mut self, state: Rc<S>);
}

/// Runs `on_change` on a derived state, given a state of the source, and returns what it
/// leaves.
pub fn updated<S: Store, D: DerivedFromMut<S>>(derived: D, state: Rc<S>) -> (r: D)
    ensures
        exists|m: &mut D|
            #[trigger] call_ensures(<D as DerivedFromMut<S>>::on_change, (m, state), ()) && *m
                == derived && *final(m) == r,
{
    let mut derived = derived;
    derived.on_change(state);
    derived
}

/// `DerivedFromMut::on_change` may leave `derived` in the derived state `current`, given a
/// state of the source.
pub open spec fn derives_mut<S: Store, D: DerivedFromMut<S>>(current: D, state: Rc<S>, derived: D) -> bool {
    call_ensures(updated::<S, D>, (current, state), derived)
}

/// Makes the derived state anew from a state of the source.
pub struct Derive<S>(pub Rc<S>);

impl<S: Store, D: DerivedFrom<S>> Reducer<D> for Derive<S> {
    open spec fn spec_accepts(&self, state: D) -> bool {
        true
    }

    open spec fn spec_reduces(&self, old: D, new: D) -> bool {
        derives(old, self.0, new)
    }

    fn apply(self, state: Rc<D>) -> (new: Rc<D>) {
        Rc::new(state.on_change(self.0))
    }
}

/// Updates a clone of the derived state from a state of the source.
pub struct DeriveMut<S>(pub Rc<S>);

impl<S: Store, D: DerivedFromMut<S>> Reducer<D> for DeriveMut<S> {
    open spec fn spec_accepts(&self, state: D) -> bool {
        true
    }

    open spec fn spec_reduces(&self, old: D, new: D) -> bool {
        exists|c: D| #[trigger] cloned::<D>(old, c) && derives_mut(c, self.0, new)
    }

    fn apply(self, state: Rc<D>) -> (new: Rc<D>) {
        let derived = (*state).clone();
        let ghost c = derived;
        let derived = updated(derived, self.0);
        assert(cloned::<D>(*state, c));
        Rc::new(derived)
    }
}

/// Listener that makes the derived store `D` anew when the store `S` changes.
pub struct DerivedListener<S, D>(PhantomData<(S, D)>);

impl<S: Store, D: DerivedFrom<S>> Listener for DerivedListener<S, D> {
    type Store = S;

    type Target = Context<D>;

    fn on_change(&self, target: &mut Context<D>, state: Rc<S>)
        ensures
            Context::reduce_post(*old(target), Derive(state), *final(target)),
    {
        target.reduce(Derive(state));
    }
}

/// Listener that updates the derived store `D` in place when the store `S` changes.
pub struct DerivedListenerMut<S, D>(PhantomData<(S, D)>);

impl<S: Store, D: DerivedFromMut<S>> Listener for DerivedListenerMut<S, D> {
    type Store = S;

    type Target = Context<D>;

    fn on_change(&self, target: &mut Context<D>, state: Rc<S>)
        ensures
            Context::reduce_post(*old(target), DeriveMut(state), *final(target)),
    {
        target.reduce(DeriveMut(state));
    }
}

/// Initializes a derived store that is made anew whenever the source store changes: registers
/// a [`DerivedListener`] on the source, subscribed under `token`, unless one is registered
/// already. Returns the new listener.
pub fn derive_from<S: Store + 'static, D: DerivedFrom<S> + 'static>(
    cx: &mut Context<S>,
    token: u64,
) -> (listener: Option<DerivedListener<S, D>>)
    requires
        old(cx).subscribers().len() < slab_room(),
    ensures
        exists|id: TypeId|
            #[trigger] listener_registration(id, token, *old(cx), listener is Some, *final(cx))
                && type_id_is::<DerivedListener<S, D>>(id),
{
    let listener = init_listener(|| DerivedListener(PhantomData), cx, token);
    listener
}

/// Initializes a derived store that is updated in place whenever the source store changes:
/// registers a [`DerivedListenerMut`] on the source, subscribed under `token`, unless one is
/// registered already. Returns the new listener.
pub fn derive_from_mut<S: Store + 'static, D: DerivedFromMut<S> + 'static>(
    cx: &mut Context<S>,
    token: u64,
) -> (listener: Option<DerivedListenerMut<S, D>>)
    requires
        old(cx).subscribers().len() < slab_room(),
    ensures
        exists|id: TypeId|
            #[trigger] listener_registration(id, token, *old(cx), listener is Some, *final(cx))
                && type_id_is::<DerivedListenerMut<S, D>>(id),
{
    let listener = init_listener(|| DerivedListenerMut(PhantomData), cx, token);
    listener
}

/// A derived store follows its source: once its listener has run on a state of the source, the
/// derived state is what `on_change` makes from the derived state before and that state.
pub proof fn lemma_derived_follows<S: Store, D: DerivedFrom<S>>(
    pre: Context<D>,
    state: Rc<S>,
    post: Context<D>,
)
    requires
        pre.state() is Some,
        Context::reduce_post(pre, Derive(state), post),
    ensures
        post.state() is Some,
        derives(pre.state().unwrap(), state, post.state().unwrap()),
{
}

/// The same for a store derived in place: the derived state is what `on_change` leaves in a
/// clone of the derived state before.
pub proof fn lemma_derived_mut_follows<S: Store, D: DerivedFromMut<S>>(
    pre: Context<D>,
    state: Rc<S>,
    post: Context<D>,
)
    requires
        pre.state() is Some,
        Context::reduce_post(pre, DeriveMut(state), post),
    ensures
        post.state() is Some,
        exists|c: D|
            #[trigger] cloned::<D>(pre.state().unwrap(), c) && derives_mut(c, state, post.state().unwrap()),
{
}

} // verus!
