//! The functions through which a store is used: each acts on the store's context.

use std::rc::Rc;

use vstd::prelude::*;

use crate::context::Context;
use crate::store::{Reducer, Store};
use crate::subscriber::{slab_room, Callable};

verus! {

/// Change state with a reducer (a function from state to state, or a message).
pub fn reduce<S: Store, R: Reducer<S>>(cx: &mut Context<S>, f: R)
    requires
        forall|s: S| f.spec_accepts(s),
    ensures
        Context::reduce_post(*old(cx), f, *final(cx)),
{
    cx.reduce(f);
}

/// Change state using a mutable reference from a function.
pub fn reduce_mut<S: Store + Clone, F: FnOnce(&mut S)>(cx: &mut Context<S>, f: F)
    requires
        forall|s: &mut S| #[trigger] f.requires((s,)),
    ensures
        exists|mid: Context<S>, s: &mut S, notify: bool|
            #![trigger Context::changed(mid, *final(s), notify, *final(cx)), f.ensures((s,), ())]
            Context::initialized(*old(cx), mid) && cloned::<S>(mid.state().unwrap(), *s)
                && f.ensures((s,), ()) && Context::changed(mid, *final(s), notify, *final(cx)),
{
    cx.reduce_mut(f);
}

/// Set state to given value.
pub fn set<S: Store>(cx: &mut Context<S>, value: S)
    ensures
        Context::set_post(*old(cx), value, *final(cx)),
{
    cx.set(value);
}

/// Send a message to state.
pub fn apply<S: Store, M: Reducer<S>>(cx: &mut Context<S>, msg: M)
    requires
        forall|s: S| msg.spec_accepts(s),
    ensures
        Context::reduce_post(*old(cx), msg, *final(cx)),
{
    cx.reduce(msg);
}

/// Get current state.
pub fn get<S: Store>(cx: &mut Context<S>) -> (state: Rc<S>)
    ensures
        Context::get_post(*old(cx), *state, *final(cx)),
{
    cx.get()
}

/// Send state to all subscribers.
pub fn notify_subscribers<S: Store>(cx: &mut Context<S>, state: Rc<S>)
    ensures
        Context::notified(*old(cx), *state, *final(cx)),
{
    cx.notify_subscribers(state);
}

/// Subscribe to a store. `on_change` is called immediately, then every time state changes.
/// `None` where the creation of the store left no room for another subscriber.
pub fn subscribe<S: Store, N: Callable<S>>(cx: &mut Context<S>, on_change: &N, token: u64) -> (key: Option<usize>)
    requires
        forall|s: S| on_change.spec_accepts(s),
    ensures
        Context::subscribe_post(*old(cx), *on_change, token, key, *final(cx)),
{
    cx.subscribe(on_change, token)
}

/// Similar to [subscribe], however state is not queued for the new subscriber.
pub fn subscribe_silent<S: Store>(cx: &mut Context<S>, token: u64) -> (key: usize)
    requires
        old(cx).subscribers().len() < slab_room(),
    ensures
        Context::subscribe_silent_post(*old(cx), token, key, *final(cx)),
{
    cx.subscribe_silent(token)
}

} // verus!
