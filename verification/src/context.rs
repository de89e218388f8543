//! The context of a store: its state, its subscribers and its listeners.

use std::any::TypeId;
use std::rc::Rc;

use yew::Callback;

use vstd::prelude::*;

use crate::listener::same_type;
use crate::store::{notifies, NewWith, Reducer, Replace, Store};
use crate::subscriber::{emitted, in_key_order, key_order, slab_room, Callable, Subscribers};

verus! {

/// A state that is due to reach some subscribers, with those subscribers (key and token) in the
/// order in which they are to be called.
pub struct Notification<S> {
    pub state: Rc<S>,
    pub subscribers: Vec<(usize, u64)>,
}

impl<S> View for Notification<S> {
    type V = (S, Seq<(usize, u64)>);

    open spec fn view(&self) -> (S, Seq<(usize, u64)>) {
        (*self.state, self.subscribers@)
    }
}

/// The state of a store.
pub struct Entry<S> {
    pub store: Rc<S>,
}

impl<S> Clone for Entry<S> {
    fn clone(&self) -> (r: Self)
        ensures
            r == *self,
    {
        Entry { store: Rc::clone(&self.store) }
    }
}

impl<S: Store> Entry<S> {
    /// Apply a reducer to state, returning if it should notify subscribers or not.
    pub fn reduce<R: Reducer<S>>(&mut self, reducer: R) -> (notify: bool)
        requires
            reducer.spec_accepts(*old(self).store),
        ensures
            reducer.spec_reduces(*old(self).store, *final(self).store),
            notifies(*final(self).store, *old(self).store, notify),
    {
        let old = Rc::clone(&self.store);
        let new = reducer.apply(Rc::clone(&old));
        self.store = new;
        self.store.should_notify(&old)
    }
}

} // verus!

verus! {

/// The context of one store: its state (created on first use), its subscribers, the types of
/// the listeners registered on it, and the notifications that are due to its subscribers.
///
/// A change of state does not call the subscribers: it queues a [`Notification`], which the
/// owner of the context takes with [`Context::take_notifications`] and delivers.
pub struct Context<S> {
    entry: Option<Entry<S>>,
    subscribers: Subscribers,
    listeners: Vec<TypeId>,
    pending: Vec<Notification<S>>,
}

impl<S: Store> Context<S> {
    /// The state of the store, or `None` before it is created.
    pub closed spec fn state(&self) -> Option<S> {
        match self.entry {
            Some(e) => Some(*e.store),
            None => None,
        }
    }

    /// The subscribers: each key with its token.
    pub closed spec fn subscribers(&self) -> Map<usize, u64> {
        self.subscribers@
    }

    /// The types of the listeners registered, in the order of registration.
    pub closed spec fn listeners(&self) -> Seq<TypeId> {
        self.listeners@
    }

    /// The notifications that are due, oldest first.
    pub closed spec fn pending(&self) -> Seq<(S, Seq<(usize, u64)>)> {
        self.pending@.map_values(|n: Notification<S>| n@)
    }

    /// `post` is `pre` with its store created: `pre` itself where it already was, and else
    /// what `Store::new`, run on `pre`, left in it, with the state that `new` returned.
    pub open spec fn initialized(pre: Self, post: Self) -> bool {
        &&& post.state() is Some
        &&& pre.state() is Some ==> post == pre
        &&& pre.state() is None ==> exists|left: Self|
            #[trigger] call_ensures(create::<S>, (pre,), (post.state().unwrap(), left))
                && post.subscribers() == left.subscribers() && post.listeners() == left.listeners()
                && post.pending() == left.pending()
    }

    /// What a change to `new` is due to bring to the subscribers `subs`: one notification of
    /// `new` to all of them in key order where `notify` (what `should_notify` said), else none.
    pub open spec fn due(new: S, subs: Map<usize, u64>, notify: bool) -> Seq<(S, Seq<(usize, u64)>)> {
        if notify {
            seq![(new, key_order(subs))]
        } else {
            seq![]
        }
    }

    /// `post` is `pre`, whose store exists, with its state changed to `new`; `notify` is what
    /// `should_notify` returned for the change.
    pub open spec fn changed(pre: Self, new: S, notify: bool, post: Self) -> bool {
        &&& pre.state() is Some
        &&& post.state() == Some(new)
        &&& notifies(new, pre.state().unwrap(), notify)
        &&& post.subscribers() == pre.subscribers()
        &&& post.listeners() == pre.listeners()
        &&& post.pending() == pre.pending() + Self::due(new, pre.subscribers(), notify)
        &&& notify ==> in_key_order(key_order(pre.subscribers()), pre.subscribers())
    }

    /// `post` is `pre` with one more notification due.
    pub open spec fn queued(pre: Self, n: (S, Seq<(usize, u64)>), post: Self) -> bool {
        &&& post.state() == pre.state()
        &&& post.subscribers() == pre.subscribers()
        &&& post.listeners() == pre.listeners()
        &&& post.pending() == pre.pending().push(n)
    }

    /// `notify_subscribers(state)` from `pre` left `post`: a notification of `state` to every
    /// subscriber, in key order, is due.
    pub open spec fn notified(pre: Self, state: S, post: Self) -> bool {
        &&& in_key_order(key_order(pre.subscribers()), pre.subscribers())
        &&& Self::queued(pre, (state, key_order(pre.subscribers())), post)
    }

    /// `subscribe(on_change, token)` from `pre` returned `key` and left `post`: the store is
    /// created if it did not exist, `on_change` is called with its state, and only then is the
    /// subscriber added (so nothing that the call sets off reaches it).
    pub open spec fn subscribe_post<N: Callable<S>>(
        pre: Self,
        on_change: N,
        token: u64,
        key: Option<usize>,
        post: Self,
    ) -> bool {
        exists|mid: Self, state: Rc<S>|
            #![trigger Self::initialized(pre, mid), call_ensures(<N as Callable<S>>::call, (&on_change, state), ())]
            Self::initialized(pre, mid) && mid.state() == Some(*state) && call_ensures(
                <N as Callable<S>>::call,
                (&on_change, state),
                (),
            ) && (mid.subscribers().len() < slab_room() ==> key is Some
                && Self::subscribe_silent_post(mid, token, key.unwrap(), post)) && (
            mid.subscribers().len() >= slab_room() ==> key is None && post == mid)
    }

    /// `unsubscribe(key)` from `pre` returned `token` and left `post`.
    pub open spec fn unsubscribe_post(pre: Self, key: usize, token: u64, post: Self) -> bool {
        &&& pre.subscribers().contains_key(key)
        &&& token == pre.subscribers()[key]
        &&& post.state() == pre.state()
        &&& post.subscribers() == pre.subscribers().remove(key)
        &&& post.listeners() == pre.listeners()
        &&& post.pending() == pre.pending()
    }

    /// `get` from `pre` returned `r` and left `post`.
    pub open spec fn get_post(pre: Self, r: S, post: Self) -> bool {
        &&& Self::initialized(pre, post)
        &&& post.state() == Some(r)
    }

    /// `reduce(reducer)` from `pre` left `post`.
    pub open spec fn reduce_post<R: Reducer<S>>(pre: Self, reducer: R, post: Self) -> bool {
        exists|mid: Self, notify: bool|
            #[trigger] Self::changed(mid, post.state().unwrap(), notify, post)
                && Self::initialized(pre, mid)
                && reducer.spec_reduces(mid.state().unwrap(), post.state().unwrap())
    }

    /// `set(value)` from `pre` left `post`.
    pub open spec fn set_post(pre: Self, value: S, post: Self) -> bool {
        exists|mid: Self, notify: bool|
            #[trigger] Self::changed(mid, value, notify, post) && Self::initialized(pre, mid)
    }

    /// `subscribe_silent(token)` from `pre` returned `key` and left `post`.
    pub open spec fn subscribe_silent_post(pre: Self, token: u64, key: usize, post: Self) -> bool {
        &&& !pre.subscribers().contains_key(key)
        &&& post.state() == pre.state()
        &&& post.subscribers() == pre.subscribers().insert(key, token)
        &&& post.listeners() == pre.listeners()
        &&& post.pending() == pre.pending()
    }

    /// `post` is `pre` with a listener of the type `id` registered, subscribed under `key`.
    pub open spec fn registered(pre: Self, id: TypeId, token: u64, key: usize, post: Self) -> bool {
        &&& !pre.subscribers().contains_key(key)
        &&& post.state() == pre.state()
        &&& post.subscribers() == pre.subscribers().insert(key, token)
        &&& post.listeners() == pre.listeners().push(id)
        &&& post.pending() == pre.pending()
    }

    /// An empty context: no state yet, no subscribers, no listeners.
    pub fn new() -> (cx: Self)
        ensures
            cx.state() is None,
            cx.subscribers() =~= Map::empty(),
            cx.listeners() =~= Seq::empty(),
            cx.pending() =~= Seq::empty(),
    {
        Context {
            entry: None,
            subscribers: Subscribers::new(),
            listeners: Vec::new(),
            pending: Vec::new(),
        }
    }

    /// The entry of the store, which is created with `Store::new` if it does not exist yet.
    /// `new` runs on this context (so that the store can register its listeners and
    /// subscribers), with no state in it; the state it returns becomes the store's.
    pub fn get_or_init(&mut self) -> (entry: Entry<S>)
        ensures
            Self::get_post(*old(self), *entry.store, *final(self)),
    {
        if let Some(entry) = &self.entry {
            return entry.clone();
        }
        let mut taken = Context::new();
        std::mem::swap(&mut taken, self);
        let ghost pre = taken;
        let created = create(taken);
        let ghost made = created;
        let (state, left) = created;
        *self = left;
        let entry = Entry { store: Rc::new(state) };
        self.entry = Some(entry.clone());
        assert(made == (*entry.store, made.1));
        assert(call_ensures(create::<S>, (pre,), (self.state().unwrap(), made.1)));
        entry
    }

    /// The state of the store, which is created with `NewWith::new_with` if it does not exist
    /// yet: `new_with` runs on this context, with no state in it, and reaches the other stores
    /// of the application through `stores`; the state it returns becomes the store's.
    pub fn get_with<R>(&mut self, stores: &mut R) -> (state: Rc<S>) where S: NewWith<R>
        ensures
            old(self).state() is Some ==> *final(self) == *old(self) && Some(*state) == old(
                self,
            ).state() && *final(stores) == *old(stores),
            old(self).state() is None ==> {
                &&& final(self).state() == Some(*state)
                &&& exists|r: &mut R, left: Context<S>|
                    #[trigger] call_ensures(create_with::<S, R>, (*old(self), r), (*state, left))
                        && *r == *old(stores) && *final(r) == *final(stores)
                        && left.subscribers() == final(self).subscribers()
                        && left.listeners() == final(self).listeners()
                        && left.pending() == final(self).pending()
            },
    {
        if let Some(entry) = &self.entry {
            return Rc::clone(&entry.store);
        }
        let mut taken = Context::new();
        std::mem::swap(&mut taken, self);
        let (made, left) = create_with(taken, stores);
        *self = left;
        let state = Rc::new(made);
        self.entry = Some(Entry { store: Rc::clone(&state) });
        state
    }

    /// The state, which is made with `init` (not with `Store::new`) if the store does not
    /// exist yet.
    pub fn get_or_insert_with<F: FnOnce() -> S>(&mut self, init: F) -> (state: Rc<S>)
        requires
            old(self).state() is None ==> init.requires(()),
        ensures
            old(self).state() is Some ==> *final(self) == *old(self) && Some(*state) == old(
                self,
            ).state(),
            old(self).state() is None ==> {
                &&& init.ensures((), *state)
                &&& final(self).state() == Some(*state)
                &&& final(self).subscribers() == old(self).subscribers()
                &&& final(self).listeners() == old(self).listeners()
                &&& final(self).pending() == old(self).pending()
            },
    {
        match &self.entry {
            Some(entry) => Rc::clone(&entry.store),
            None => {
                let state = Rc::new(init());
                self.entry = Some(Entry { store: Rc::clone(&state) });
                state
            },
        }
    }

    /// Get current state.
    pub fn get(&mut self) -> (state: Rc<S>)
        ensures
            Self::get_post(*old(self), *state, *final(self)),
    {
        self.get_or_init().store
    }

    /// Apply a reducer to the state, and queue a notification of the new state to all
    /// subscribers if `should_notify` says so.
    pub fn reduce<R: Reducer<S>>(&mut self, reducer: R)
        requires
            forall|s: S| reducer.spec_accepts(s),
        ensures
            Self::reduce_post(*old(self), reducer, *final(self)),
    {
        let mut entry = self.get_or_init();
        let ghost mid = *self;
        let notify = entry.reduce(reducer);
        let state = Rc::clone(&entry.store);
        self.entry = Some(entry);
        if notify {
            self.notify_subscribers(state);
            assert(mid.pending() + Self::due(*state, mid.subscribers(), notify)
                =~= mid.pending().push((*state, key_order(mid.subscribers()))));
        } else {
            assert(mid.pending() + Self::due(*state, mid.subscribers(), notify) =~= mid.pending());
        }
        assert(Self::changed(mid, *state, notify, *self));
        assert(Self::initialized(*old(self), mid));
        assert(reducer.spec_reduces(mid.state().unwrap(), self.state().unwrap()));
    }

    /// Change the state through a mutable reference to a clone of it, and queue a notification
    /// of the new state to all subscribers if `should_notify` says so.
    pub fn reduce_mut<F: FnOnce(&mut S)>(&mut self, f: F) where S: Clone
        requires
            forall|s: &mut S| #[trigger] f.requires((s,)),
        ensures
            exists|mid: Self, s: &mut S, notify: bool|
                #![trigger Self::changed(mid, *final(s), notify, *final(self)), f.ensures((s,), ())]
                Self::initialized(*old(self), mid) && cloned::<S>(mid.state().unwrap(), *s)
                    && f.ensures((s,), ()) && Self::changed(mid, *final(s), notify, *final(self)),
    {
        let entry = self.get_or_init();
        let ghost mid = *self;
        let mut state = (*entry.store).clone();
        f(&mut state);
        let new = Rc::new(state);
        let notify = new.should_notify(&entry.store);
        self.entry = Some(Entry { store: Rc::clone(&new) });
        if notify {
            self.notify_subscribers(new);
            assert(mid.pending() + Self::due(*new, mid.subscribers(), notify)
                =~= mid.pending().push((*new, key_order(mid.subscribers()))));
        } else {
            assert(mid.pending() + Self::due(*new, mid.subscribers(), notify) =~= mid.pending());
        }
        assert(Self::changed(mid, *new, notify, *self));
        assert(Self::initialized(*old(self), mid));
    }

    /// Send state to all subscribers: queue a notification of it to each of them, in key order.
    pub fn notify_subscribers(&mut self, state: Rc<S>)
        ensures
            Self::notified(*old(self), *state, *final(self)),
    {
        let ghost pre = *self;
        let subscribers = self.subscribers.notify();
        self.pending.push(Notification { state, subscribers });
        assert(self.pending@.map_values(|n: Notification<S>| n@) =~= old(self).pending@.map_values(
            |n: Notification<S>| n@,
        ).push((*state, key_order(old(self).subscribers()))));
        assert(Self::notified(pre, *state, *self));
    }

    /// Set state to given value.
    pub fn set(&mut self, value: S)
        ensures
            Self::set_post(*old(self), value, *final(self)),
    {
        let ghost v = value;
        self.reduce(Replace(Rc::new(value)));
        assert(Self::set_post(*old(self), v, *self));
    }

    /// Subscribe to the store without being told of its current state.
    pub fn subscribe_silent(&mut self, token: u64) -> (key: usize)
        requires
            old(self).subscribers().len() < slab_room(),
        ensures
            Self::subscribe_silent_post(*old(self), token, key, *final(self)),
    {
        self.subscribers.subscribe(token)
    }

    /// Subscribe to the store: `on_change` is called at once with the current state (the
    /// store is created if it does not exist yet), and then subscribed under `token`, so that
    /// every later notification reaches it; returns its key. Where the creation of the store
    /// left no room for another subscriber (the slab could not grow), it is not subscribed and
    /// `None` is returned.
    pub fn subscribe<N: Callable<S>>(&mut self, on_change: &N, token: u64) -> (key: Option<usize>)
        requires
            forall|s: S| on_change.spec_accepts(s),
        ensures
            Self::subscribe_post(*old(self), *on_change, token, key, *final(self)),
    {
        let state = self.get();
        let ghost mid = *self;
        on_change.call(Rc::clone(&state));
        assert(Self::initialized(*old(self), mid));
        if self.subscribers.has_room() {
            Some(self.subscribers.subscribe(token))
        } else {
            None
        }
    }

    /// Remove the subscriber under `key`; returns its token.
    pub fn unsubscribe(&mut self, key: usize) -> (token: u64)
        requires
            old(self).subscribers().contains_key(key),
        ensures
            Self::unsubscribe_post(*old(self), key, token, *final(self)),
    {
        self.subscribers.unsubscribe(key)
    }

    /// Whether another subscriber can be added: the slab of subscribers has room for it.
    pub fn has_room(&self) -> (room: bool)
        ensures
            room == (self.subscribers().len() < slab_room()),
    {
        self.subscribers.has_room()
    }

    /// Whether a subscriber is subscribed under `key`.
    pub fn has_subscriber(&self, key: usize) -> (b: bool)
        ensures
            b == self.subscribers().contains_key(key),
    {
        self.subscribers.contains(key)
    }

    /// Whether some subscriber holds `token`.
    pub fn holds_token(&self, token: u64) -> (b: bool)
        ensures
            b == exists|k: usize| #[trigger] self.subscribers().contains_key(k) && self.subscribers()[k] == token,
    {
        let entries = self.subscribers.notify();
        let ghost m = self.subscribers();
        let mut i: usize = 0;
        while i < entries.len()
            invariant
                i <= entries@.len(),
                m == self.subscribers(),
                in_key_order(entries@, m),
                forall|j: int| 0 <= j < i ==> entries@[j].1 != token,
            decreases entries@.len() - i,
        {
            if entries[i].1 == token {
                assert(m.contains_key(entries@[i as int].0));
                return true;
            }
            i = i + 1;
        }
        assert forall|k: usize| #[trigger] m.contains_key(k) implies m[k] != token by {
            let j = choose|j: int| 0 <= j < entries@.len() && entries@[j].0 == k;
            assert(m.contains_key(entries@[j].0));
        }
        false
    }

    /// The number of subscribers.
    pub fn subscriber_count(&self) -> (n: usize)
        ensures
            n == self.subscribers().len(),
    {
        self.subscribers.len()
    }

    /// Register a listener of the type `id`, subscribed silently under `token`, unless one of
    /// that type is registered already. Returns the subscriber key of a new registration.
    pub fn register_listener(&mut self, id: TypeId, token: u64) -> (key: Option<usize>)
        requires
            old(self).subscribers().len() < slab_room(),
        ensures
            old(self).listeners().contains(id) ==> key is None && *final(self) == *old(self),
            !old(self).listeners().contains(id) ==> key is Some && Self::registered(
                *old(self),
                id,
                token,
                key.unwrap(),
                *final(self),
            ),
    {
        let mut i: usize = 0;
        while i < self.listeners.len()
            invariant
                0 <= i <= self.listeners@.len(),
                forall|j: int| 0 <= j < i ==> self.listeners@[j] != id,
            decreases self.listeners@.len() - i,
        {
            if same_type(&self.listeners[i], &id) {
                return None;
            }
            i = i + 1;
        }
        self.listeners.push(id);
        Some(self.subscribers.subscribe(token))
    }

    /// Take the notifications that are due, oldest first; none are due afterwards.
    pub fn take_notifications(&mut self) -> (due: Vec<Notification<S>>)
        ensures
            due@.map_values(|n: Notification<S>| n@) == old(self).pending(),
            final(self).state() == old(self).state(),
            final(self).subscribers() == old(self).subscribers(),
            final(self).listeners() == old(self).listeners(),
            final(self).pending() =~= Seq::empty(),
    {
        let mut due = Vec::new();
        std::mem::swap(&mut due, &mut self.pending);
        due
    }
}

/// Creates a store with `Store::new` on the context `cx`; returns the state that `new` made
/// and the context as `new` left it.
pub fn create<S: Store>(cx: Context<S>) -> (created: (S, Context<S>))
    ensures
        exists|c: &mut Context<S>|
            #[trigger] call_ensures(S::new, (c,), created.0) && *c == cx && *final(c) == created.1,
{
    let mut left = cx;
    let state = S::new(&mut left);
    assert(exists|c: &mut Context<S>|
        #[trigger] call_ensures(S::new, (c,), state) && *c == cx && *final(c) == left);
    let ghost made = (state, left);
    assert(made.0 == state);
    assert(made.1 == left);
    (state, left)
}

/// Creates a store with `NewWith::new_with` on the context `cx`, with `stores` at hand;
/// returns the state that `new_with` made and the context as `new_with` left it.
pub fn create_with<S: NewWith<R>, R>(cx: Context<S>, stores: &mut R) -> (created: (S, Context<S>))
    ensures
        exists|c: &mut Context<S>, r: &mut R|
            #[trigger] call_ensures(<S as NewWith<R>>::new_with, (c, r), created.0) && *c == cx
                && *final(c) == created.1 && *r == *old(stores) && *final(r) == *final(stores),
{
    let mut left = cx;
    let state = S::new_with(&mut left, stores);
    assert(exists|c: &mut Context<S>, r: &mut R|
        #[trigger] call_ensures(<S as NewWith<R>>::new_with, (c, r), state) && *c == cx
            && *final(c) == left && *r == *old(stores) && *final(r) == *final(stores));
    let ghost made = (state, left);
    assert(made.0 == state);
    assert(made.1 == left);
    (state, left)
}

/// Subscribing a component's callback emits it at once with the state of the store, the
/// state the store holds after the subscription.
pub proof fn lemma_subscribe_emits_callback<S: Store>(
    pre: Context<S>,
    callback: Callback<Rc<S>>,
    token: u64,
    key: Option<usize>,
    post: Context<S>,
)
    requires
        Context::subscribe_post(pre, callback, token, key, post),
    ensures
        exists|state: Rc<S>| #[trigger] emitted(callback, state) && post.state() == Some(*state),
{
    let (mid, state) = choose|mid: Context<S>, state: Rc<S>|
        Context::initialized(pre, mid) && mid.state() == Some(*state) && call_ensures(
            <Callback<Rc<S>> as Callable<S>>::call,
            (&callback, state),
            (),
        ) && (mid.subscribers().len() < slab_room() ==> key is Some
            && Context::subscribe_silent_post(mid, token, key.unwrap(), post)) && (
        mid.subscribers().len() >= slab_room() ==> key is None && post == mid);
    assert(emitted(callback, state));
}

/// A read gives back what the last write wrote: `get` after `set(value)` returns `value`, and
/// changes nothing.
pub proof fn lemma_get_after_set<S: Store>(pre: Context<S>, value: S, mid: Context<S>, r: S, post: Context<S>)
    requires
        Context::set_post(pre, value, mid),
        Context::get_post(mid, r, post),
    ensures
        r == value,
        post == mid,
{
}

/// A store is created once: a second `get` returns the state that the first returned, and
/// changes nothing.
pub proof fn lemma_get_twice<S: Store>(pre: Context<S>, r1: S, mid: Context<S>, r2: S, post: Context<S>)
    requires
        Context::get_post(pre, r1, mid),
        Context::get_post(mid, r2, post),
    ensures
        r2 == r1,
        post == mid,
{
}

/// A change that `should_notify` rejects reaches no subscriber; one that it accepts reaches
/// every subscriber once, in key order, with the new state.
pub proof fn lemma_change_notifies<S: Store>(pre: Context<S>, new: S, notify: bool, post: Context<S>)
    requires
        Context::changed(pre, new, notify, post),
    ensures
        notifies(new, pre.state().unwrap(), notify),
        !notify ==> post.pending() == pre.pending(),
        notify ==> {
            &&& post.pending() == pre.pending().push((new, key_order(pre.subscribers())))
            &&& forall|k: usize| #[trigger] pre.subscribers().contains_key(k) ==> exists|i: int|
                0 <= i < key_order(pre.subscribers()).len() && key_order(pre.subscribers())[i] == (
                    k,
                    pre.subscribers()[k],
                )
            &&& forall|i: int, j: int|
                0 <= i < j < key_order(pre.subscribers()).len() ==> key_order(pre.subscribers())[i].0
                    < key_order(pre.subscribers())[j].0
        },
{
    if notify {
        let ko = key_order(pre.subscribers());
        assert(pre.pending() + seq![(new, ko)] =~= pre.pending().push((new, ko)));
        assert forall|k: usize| #[trigger] pre.subscribers().contains_key(k) implies exists|i: int|
            0 <= i < ko.len() && ko[i] == (k, pre.subscribers()[k]) by {
            let i = choose|i: int| 0 <= i < ko.len() && ko[i].0 == k;
            assert(pre.subscribers().contains_key(ko[i].0));
        }
    } else {
        assert(pre.pending() + seq![] =~= pre.pending());
    }
}

/// Unsubscribing undoes subscribing: the subscribers are what they were.
pub proof fn lemma_unsubscribe_undoes_subscribe<S: Store>(
    pre: Context<S>,
    token: u64,
    key: usize,
    mid: Context<S>,
    t: u64,
    post: Context<S>,
)
    requires
        Context::subscribe_silent_post(pre, token, key, mid),
        Context::unsubscribe_post(mid, key, t, post),
    ensures
        t == token,
        post.subscribers() == pre.subscribers(),
        post.state() == pre.state(),
        post.listeners() == pre.listeners(),
        post.pending() == pre.pending(),
{
    assert(post.subscribers() =~= pre.subscribers());
}

/// A listener type is registered once: after a registration, the type is among the
/// listeners, so registering it again changes nothing.
pub proof fn lemma_registered_once<S: Store>(
    pre: Context<S>,
    id: TypeId,
    token: u64,
    key: usize,
    post: Context<S>,
)
    requires
        Context::registered(pre, id, token, key, post),
    ensures
        post.listeners().contains(id),
{
    assert(post.listeners()[pre.listeners().len() as int] == id);
}

} // verus!
