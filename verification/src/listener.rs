//! Listeners: reactions to the changes of a store, registered at most once per listener type.

use std::any::TypeId;
use std::rc::Rc;

use vstd::prelude::*;

use crate::context::Context;
use crate::store::Store;
use crate::subscriber::slab_room;

verus! {

/// `std::any::TypeId`, held by this crate as an opaque value.
#[verifier::external_type_specification]
#[verifier::external_body]
pub struct ExTypeId(TypeId);

/// `TypeId::of`: the identifier of the type `T`. Nothing is stated of the identifier.
#[verifier::external_body]
pub(crate) fn type_id_of<T: ?Sized + 'static>() -> TypeId {
    TypeId::of::<T>()
}

/// `TypeId`'s `==`: two identifiers compare equal exactly when they are the same value.
#[verifier::external_body]
pub(crate) fn same_type(a: &TypeId, b: &TypeId) -> (r: bool)
    ensures
        r == (*a == *b),
{
    *a == *b
}

/// `id` is what `TypeId::of::<T>()` returned: the identifier of the type `T`.
pub closed spec fn type_id_is<T: ?Sized + 'static>(id: TypeId) -> bool {
    call_ensures(type_id_of::<T>, (), id)
}

/// Listens to the changes of a [Store].
pub trait Listener: Sized {
    /// The store listened to.
    type Store: Store;

    /// What the listener acts on when the store changes: another store's context, or a queue
    /// of work for its owner.
    type Target;

    fn on_change(&self, target: &mut Self::Target, state: Rc<Self::Store>);
}

/// Initiating a listener of the type `id` on `pre` left `post`; `created` tells whether a new
/// listener was made: exactly where none of that type was registered, and then it is
/// registered, subscribed under `token`.
pub open spec fn listener_registration<S: Store>(
    id: TypeId,
    token: u64,
    pre: Context<S>,
    created: bool,
    post: Context<S>,
) -> bool {
    &&& pre.listeners().contains(id) ==> !created && post == pre
    &&& !pre.listeners().contains(id) ==> created && exists|key: usize|
        #[trigger] Context::registered(pre, id, token, key, post)
}

/// `init_listener` registered a listener of the type `id` on `pre`, leaving `post`, and
/// returned `listener`, made by `new_listener` where one was made.
pub open spec fn listener_initialized<L, F: FnOnce() -> L, S: Store>(
    new_listener: F,
    id: TypeId,
    token: u64,
    pre: Context<S>,
    listener: Option<L>,
    post: Context<S>,
) -> bool {
    &&& listener_registration(id, token, pre, listener is Some, post)
    &&& listener is Some ==> new_listener.ensures((), listener.unwrap())
}

/// Initiate a [Listener], subscribed silently under `token`. Does nothing if a listener of the
/// same type is already initiated; else returns the new listener, for its owner to call on
/// each notification that reaches `token`.
pub fn init_listener<L: Listener + 'static, F: FnOnce() -> L>(
    new_listener: F,
    cx: &mut Context<L::Store>,
    token: u64,
) -> (listener: Option<L>)
    requires
        old(cx).subscribers().len() < slab_room(),
        new_listener.requires(()),
    ensures
        exists|id: TypeId|
            #[trigger] listener_initialized(new_listener, id, token, *old(cx), listener, *final(cx))
                && type_id_is::<L>(id),
{
    let id = type_id_of::<L>();
    match cx.register_listener(id, token) {
        Some(key) => {
            let listener = new_listener();
            assert(Context::registered(*old(cx), id, token, key, *cx));
            assert(listener_initialized(new_listener, id, token, *old(cx), Some(listener), *cx));
            Some(listener)
        },
        None => {
            assert(listener_initialized(new_listener, id, token, *old(cx), None::<L>, *cx));
            None
        },
    }
}

} // verus!

verus! {

/// A listener type is registered once, and listeners of other types beside it: after a
/// registration under `first`, a registration under `second` is taken exactly when `second`
/// is another identifier, and both are then registered. `init_listener`, `derive_from` and
/// `derive_from_mut` register under the identifier of their listener's type.
pub proof fn lemma_listener_types_register_once<S: Store>(
    pre: Context<S>,
    first: TypeId,
    first_token: u64,
    first_created: bool,
    mid: Context<S>,
    second: TypeId,
    second_token: u64,
    second_created: bool,
    post: Context<S>,
)
    requires
        !pre.listeners().contains(first),
        !pre.listeners().contains(second),
        listener_registration(first, first_token, pre, first_created, mid),
        listener_registration(second, second_token, mid, second_created, post),
    ensures
        first_created,
        second_created <==> second != first,
        post.listeners().contains(first),
        post.listeners().contains(second),
{
    let key = choose|key: usize| #[trigger] Context::registered(pre, first, first_token, key, mid);
    assert(mid.listeners()[pre.listeners().len() as int] == first);
    assert forall|i: int| 0 <= i < mid.listeners().len() && mid.listeners()[i] == second implies second == first by {
        if i < pre.listeners().len() {
            assert(pre.listeners()[i] == second);
        }
    }
    if second != first {
        let key2 = choose|key: usize| #[trigger] Context::registered(mid, second, second_token, key, post);
        assert(post.listeners()[mid.listeners().len() as int] == second);
        assert(post.listeners()[pre.listeners().len() as int] == first);
    }
}

} // verus!
