//! The subscribers of a store: a slab of subscriber tokens, notified in key order.

use std::rc::Rc;

use slab::Slab;
use vstd::prelude::*;
use yew::Callback;

verus! {

/// `slab::Slab`, held by this crate as an opaque value.
#[verifier::external_type_specification]
#[verifier::external_body]
#[verifier::reject_recursive_types(T)]
pub struct ExSlab<T>(Slab<T>);

/// What a slab of subscriber tokens holds: each occupied key with its token.
pub uninterp spec fn slab_contents(slab: Slab<u64>) -> Map<usize, u64>;

/// The most values a slab of tokens is given here: below it, `Slab::insert` cannot exceed
/// `isize::MAX` bytes of storage (an entry of a `u64` slab takes 16 bytes, and the vector
/// behind it at most doubles when it grows).
pub open spec fn slab_room() -> int {
    isize::MAX as int / 64
}

/// `Slab::new`: a slab that holds nothing.
#[verifier::external_body]
fn slab_new() -> (slab: Slab<u64>)
    ensures
        slab_contents(slab) =~= Map::empty(),
{
    Slab::new()
}

/// `Slab::insert`: stores the token under a key that held nothing, and returns that key.
/// Which free key is taken depends on the slab's history of removals and is not stated.
#[verifier::external_body]
fn slab_insert(slab: &mut Slab<u64>, token: u64) -> (key: usize)
    requires
        slab_contents(*old(slab)).len() < slab_room(),
    ensures
        !slab_contents(*old(slab)).contains_key(key),
        slab_contents(*final(slab)) == slab_contents(*old(slab)).insert(key, token),
{
    slab.insert(token)
}

/// `Slab::remove`: takes out the token stored under an occupied key and returns it.
#[verifier::external_body]
fn slab_remove(slab: &mut Slab<u64>, key: usize) -> (token: u64)
    requires
        slab_contents(*old(slab)).contains_key(key),
    ensures
        token == slab_contents(*old(slab))[key],
        slab_contents(*final(slab)) == slab_contents(*old(slab)).remove(key),
{
    slab.remove(key)
}

/// `Slab::len`: the number of occupied keys.
#[verifier::external_body]
fn slab_len(slab: &Slab<u64>) -> (n: usize)
    ensures
        n == slab_contents(*slab).len(),
{
    slab.len()
}

/// `Slab::contains`: whether the key is occupied.
#[verifier::external_body]
fn slab_contains(slab: &Slab<u64>, key: usize) -> (b: bool)
    ensures
        b == slab_contents(*slab).contains_key(key),
{
    slab.contains(key)
}

/// `Slab::iter`, each entry copied out: the occupied keys in increasing order, each with its
/// token.
#[verifier::external_body]
fn slab_entries(slab: &Slab<u64>) -> (entries: Vec<(usize, u64)>)
    ensures
        in_key_order(entries@, slab_contents(*slab)),
{
    slab.iter().map(|(key, token)| (key, *token)).collect()
}

/// `entries` lists every key of `m` once, in increasing order, each with its token.
pub open spec fn in_key_order(entries: Seq<(usize, u64)>, m: Map<usize, u64>) -> bool {
    &&& forall|i: int, j: int| 0 <= i < j < entries.len() ==> entries[i].0 < entries[j].0
    &&& forall|i: int|
        0 <= i < entries.len() ==> #[trigger] m.contains_key(entries[i].0) && m[entries[i].0]
            == entries[i].1
    &&& forall|k: usize| #[trigger]
        m.contains_key(k) ==> exists|i: int| 0 <= i < entries.len() && entries[i].0 == k
}

/// The subscribers of `m` in the order in which a notification reaches them.
pub open spec fn key_order(m: Map<usize, u64>) -> Seq<(usize, u64)> {
    choose|entries: Seq<(usize, u64)>| in_key_order(entries, m)
}

/// A map has at most one listing of its entries in increasing key order.
pub proof fn lemma_key_order_unique(a: Seq<(usize, u64)>, b: Seq<(usize, u64)>, m: Map<usize, u64>)
    requires
        in_key_order(a, m),
        in_key_order(b, m),
    ensures
        a == b,
    decreases a.len() + b.len(),
{
    if a.len() == 0 {
        if b.len() > 0 {
            assert(m.contains_key(b[0].0));
        }
    } else if b.len() == 0 {
        assert(m.contains_key(a[0].0));
    } else {
        // The first entries of both are the smallest key of `m`.
        assert(m.contains_key(a[0].0));
        assert(m.contains_key(b[0].0));
        let ia = choose|i: int| 0 <= i < a.len() && a[i].0 == b[0].0;
        let ib = choose|i: int| 0 <= i < b.len() && b[i].0 == a[0].0;
        if ia > 0 {
            assert(a[0].0 < a[ia].0);
        }
        if ib > 0 {
            assert(b[0].0 < b[ib].0);
        }
        assert(a[0].0 == b[0].0);
        let k = a[0].0;
        let m2 = m.remove(k);
        let a2 = a.drop_first();
        let b2 = b.drop_first();
        assert forall|kk: usize| #[trigger] m2.contains_key(kk) implies exists|i: int|
            0 <= i < a2.len() && a2[i].0 == kk by {
            assert(m.contains_key(kk));
            let i = choose|i: int| 0 <= i < a.len() && a[i].0 == kk;
            assert(i > 0);
            assert(a2[i - 1].0 == kk);
        }
        assert forall|kk: usize| #[trigger] m2.contains_key(kk) implies exists|i: int|
            0 <= i < b2.len() && b2[i].0 == kk by {
            assert(m.contains_key(kk));
            let i = choose|i: int| 0 <= i < b.len() && b[i].0 == kk;
            assert(i > 0);
            assert(b2[i - 1].0 == kk);
        }
        assert forall|i: int| 0 <= i < a2.len() implies #[trigger] m2.contains_key(a2[i].0)
            && m2[a2[i].0] == a2[i].1 by {
            assert(a[0].0 < a[i + 1].0);
            assert(m.contains_key(a[i + 1].0));
        }
        assert forall|i: int| 0 <= i < b2.len() implies #[trigger] m2.contains_key(b2[i].0)
            && m2[b2[i].0] == b2[i].1 by {
            assert(b[0].0 < b[i + 1].0);
            assert(m.contains_key(b[i + 1].0));
        }
        assert(in_key_order(a2, m2));
        assert(in_key_order(b2, m2));
        lemma_key_order_unique(a2, b2, m2);
        assert(a =~= seq![a[0]] + a2);
        assert(b =~= seq![b[0]] + b2);
    }
}

/// The listing that a slab hands out is the one `key_order` names.
proof fn lemma_key_order_is(entries: Seq<(usize, u64)>, m: Map<usize, u64>)
    requires
        in_key_order(entries, m),
    ensures
        key_order(m) == entries,
{
    lemma_key_order_unique(key_order(m), entries, m);
}

/// `yew::Callback`, held by this crate as an opaque value.
#[verifier::external_type_specification]
#[verifier::external_body]
#[verifier::reject_recursive_types(IN)]
#[verifier::reject_recursive_types(OUT)]
pub struct ExCallback<IN, OUT>(Callback<IN, OUT>);

/// `Callback::emit`: runs the callback on the state. Nothing is stated of what it does.
#[verifier::external_body]
fn callback_emit<S>(callback: &Callback<Rc<S>>, value: Rc<S>) {
    callback.emit(value)
}

/// Receives the new state of a store.
pub trait Callable<S> {
    /// The states this subscriber can be called with: all of them, unless it says otherwise.
    open spec fn spec_accepts(&self, value: S) -> bool {
        true
    }

    fn call(&self, value: Rc<S>)
        requires
            self.spec_accepts(*value),
    ;
}

/// A function of the state is a subscriber.
impl<S, F: Fn(Rc<S>)> Callable<S> for F {
    open spec fn spec_accepts(&self, value: S) -> bool {
        call_requires(*self, (Rc::new(value),))
    }

    fn call(&self, value: Rc<S>)
        ensures
            call_ensures(*self, (value,), ()),
    {
        self(value)
    }
}

/// A callback of a component is a subscriber.
/// `callback` was emitted with `value`.
pub closed spec fn emitted<S>(callback: Callback<Rc<S>>, value: Rc<S>) -> bool {
    call_ensures(callback_emit::<S>, (&callback, value), ())
}

impl<S> Callable<S> for Callback<Rc<S>> {
    /// Emits the callback with the value.
    fn call(&self, value: Rc<S>)
        ensures
            emitted(*self, value),
    {
        callback_emit(self, value)
    }
}

/// The subscribers of one store, each held as the token that its owner gave it, under the key
/// that the slab assigned.
pub struct Subscribers(Slab<u64>);

impl View for Subscribers {
    type V = Map<usize, u64>;

    closed spec fn view(&self) -> Map<usize, u64> {
        slab_contents(self.0)
    }
}

impl Subscribers {
    /// No subscribers.
    pub fn new() -> (s: Self)
        ensures
            s@ =~= Map::empty(),
    {
        Subscribers(slab_new())
    }

    /// Adds a subscriber under a key that was free, and returns the key.
    pub fn subscribe(&mut self, token: u64) -> (key: usize)
        requires
            old(self)@.len() < slab_room(),
        ensures
            !old(self)@.contains_key(key),
            final(self)@ == old(self)@.insert(key, token),
    {
        slab_insert(&mut self.0, token)
    }

    /// Removes the subscriber under `key`.
    pub fn unsubscribe(&mut self, key: usize) -> (token: u64)
        requires
            old(self)@.contains_key(key),
        ensures
            token == old(self)@[key],
            final(self)@ == old(self)@.remove(key),
    {
        slab_remove(&mut self.0, key)
    }

    /// The subscribers to call, in the order in which they are called: by increasing key.
    pub fn notify(&self) -> (entries: Vec<(usize, u64)>)
        ensures
            entries@ == key_order(self@),
            in_key_order(entries@, self@),
    {
        let entries = slab_entries(&self.0);
        proof {
            lemma_key_order_is(entries@, self@);
        }
        entries
    }

    /// The number of subscribers.
    pub fn len(&self) -> (n: usize)
        ensures
            n == self@.len(),
    {
        slab_len(&self.0)
    }

    /// Whether a subscriber is subscribed under `key`.
    pub fn contains(&self, key: usize) -> (b: bool)
        ensures
            b == self@.contains_key(key),
    {
        slab_contains(&self.0, key)
    }

    /// Whether another subscriber can be added.
    pub fn has_room(&self) -> (room: bool)
        ensures
            room == (self@.len() < slab_room()),
    {
        let n = slab_len(&self.0);
        (n as u64) < (isize::MAX as u64) / 64
    }

    /// Whether there are no subscribers.
    pub fn is_empty(&self) -> (b: bool)
        ensures
            b == (self@.len() == 0),
    {
        slab_len(&self.0) == 0
    }
}

} // verus!
