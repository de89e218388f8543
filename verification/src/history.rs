//! Undo and redo for a store: a history of its states, kept by a listener.

use std::marker::PhantomData;
use std::rc::Rc;

use vstd::prelude::*;

use crate::context::Context;
use crate::listener::Listener;
use crate::store::{NewWith, Reducer, Replace, Store, Stores};

verus! {

/// `Rc::ptr_eq`: true only where both point to the same allocation, and so to the same value.
/// Which allocations are shared is not stated.
#[verifier::external_body]
fn rc_ptr_eq<T>(a: &Rc<T>, b: &Rc<T>) -> (same: bool)
    ensures
        same ==> *a == *b,
{
    Rc::ptr_eq(a, b)
}

/// A move through the history of a store.
#[derive(Debug, Clone, Copy, PartialEq, Eq, Structural)]
pub enum HistoryMessage {
    Undo,
    Redo,
    Clear,
    JumpTo(usize),
}

/// The states a store went through, and which of them is current.
#[derive(Debug)]
pub struct HistoryStore<T> {
    vector: Vec<Rc<T>>,
    index: usize,
    /// Whether the last change of the history moved to another state, which the store is then
    /// to be set to.
    moved: bool,
}

/// A history, as states and the position of the current one.
pub type HistoryView<T> = (Seq<T>, nat);

/// Whether `message` can change the history `h`.
pub open spec fn spec_can_apply<T>(h: HistoryView<T>, message: HistoryMessage) -> bool {
    match message {
        HistoryMessage::Undo => h.1 > 0,
        HistoryMessage::Redo => h.1 + 1 < h.0.len(),
        HistoryMessage::Clear => h.0.len() > 1,
        HistoryMessage::JumpTo(i) => i != h.1 && i < h.0.len(),
    }
}

/// Whether applying `message` to `h` moves to another state of the store (which the store is
/// then set to).
pub open spec fn spec_moves<T>(h: HistoryView<T>, message: HistoryMessage) -> bool {
    match message {
        HistoryMessage::Undo => h.1 > 0,
        HistoryMessage::Redo => h.1 + 1 < h.0.len(),
        HistoryMessage::Clear => false,
        HistoryMessage::JumpTo(i) => i < h.0.len(),
    }
}

/// The history after `message`.
pub open spec fn spec_applied<T>(h: HistoryView<T>, message: HistoryMessage) -> HistoryView<T> {
    match message {
        HistoryMessage::Undo => if h.1 > 0 { (h.0, (h.1 - 1) as nat) } else { h },
        HistoryMessage::Redo => if h.1 + 1 < h.0.len() { (h.0, h.1 + 1) } else { h },
        HistoryMessage::Clear => (seq![h.0[h.1 as int]], 0),
        HistoryMessage::JumpTo(i) => if i < h.0.len() { (h.0, i as nat) } else { h },
    }
}

/// The history after the store changed to `state`: the states after the current one are
/// dropped, and `state` follows the current one and becomes current.
pub open spec fn spec_recorded<T>(h: HistoryView<T>, state: T) -> HistoryView<T> {
    (h.0.take(h.1 + 1int).push(state), h.1 + 1)
}

/// A well-formed history: at least one state, and the current one among them.
pub open spec fn spec_well_formed<T>(h: HistoryView<T>) -> bool {
    h.1 < h.0.len()
}

/// The current state of the history `h`.
pub open spec fn spec_current<T>(h: HistoryView<T>) -> T {
    h.0[h.1 as int]
}

impl<T> View for HistoryStore<T> {
    type V = HistoryView<T>;

    closed spec fn view(&self) -> HistoryView<T> {
        (self.vector@.map_values(|s: Rc<T>| *s), self.index as nat)
    }
}

impl<T> HistoryStore<T> {
    #[verifier::type_invariant]
    closed spec fn inv(self) -> bool {
        self.index < self.vector@.len()
    }

    /// Whether the last change of the history moved it to another state, which the store is
    /// then to be set to.
    pub closed spec fn store_moved(&self) -> bool {
        self.moved
    }

    /// A history that holds `state` alone.
    pub fn with_state(state: Rc<T>) -> (h: Self)
        ensures
            h@ == (seq![*state], 0nat),
            !h.store_moved(),
    {
        let mut vector = Vec::new();
        vector.push(state);
        let h = HistoryStore { vector, index: 0, moved: false };
        assert(h@.0 =~= seq![*state]);
        h
    }

    pub fn can_apply(&self, message: &HistoryMessage) -> (r: bool)
        ensures
            r == spec_can_apply(self@, *message),
    {
        proof {
            use_type_invariant(self);
        }
        match message {
            HistoryMessage::Undo => self.index > 0,
            HistoryMessage::Redo => self.index < self.vector.len() - 1,
            HistoryMessage::Clear => self.vector.len() > 1,
            HistoryMessage::JumpTo(index) => *index != self.index && *index < self.vector.len(),
        }
    }

    /// Whether `message` moves to another state of the store.
    fn moves(&self, message: &HistoryMessage) -> (r: bool)
        ensures
            r == spec_moves(self@, *message),
    {
        proof {
            use_type_invariant(self);
        }
        match message {
            HistoryMessage::Undo => self.index > 0,
            HistoryMessage::Redo => self.index < self.vector.len() - 1,
            HistoryMessage::Clear => false,
            HistoryMessage::JumpTo(index) => *index < self.vector.len(),
        }
    }

    /// Whether `state` is, as an allocation, the current state. Where it is, it equals it.
    fn matches_current(&self, state: &Rc<T>) -> (r: bool)
        ensures
            r ==> *state == self@.0[self@.1 as int],
    {
        let c = self.current();
        rc_ptr_eq(c, state)
    }

    /// Whether the last change of the history moved it to another state.
    pub fn moved(&self) -> (r: bool)
        ensures
            r == self.store_moved(),
    {
        self.moved
    }

    /// The current state.
    pub fn current(&self) -> (c: &Rc<T>)
        ensures
            **c == self@.0[self@.1 as int],
    {
        proof {
            use_type_invariant(self);
        }
        &self.vector[self.index]
    }

    /// The position of the current state.
    pub fn index(&self) -> (i: usize)
        ensures
            i == self@.1,
            spec_well_formed(self@),
    {
        proof {
            use_type_invariant(self);
        }
        self.index
    }

    /// The states, oldest first.
    pub fn states(&self) -> (s: &[Rc<T>])
        ensures
            s@.map_values(|x: Rc<T>| *x) == self@.0,
    {
        self.vector.as_slice()
    }

    /// A copy that shares the states.
    fn duplicate(&self) -> (h: Self)
        ensures
            h@ == self@,
            h.store_moved() == self.store_moved(),
    {
        proof {
            use_type_invariant(self);
        }
        let mut vector: Vec<Rc<T>> = Vec::new();
        let mut i: usize = 0;
        while i < self.vector.len()
            invariant
                i <= self.vector@.len(),
                vector@.len() == i,
                forall|j: int| 0 <= j < i ==> *vector@[j] == *self.vector@[j],
            decreases self.vector@.len() - i,
        {
            vector.push(Rc::clone(&self.vector[i]));
            i = i + 1;
        }
        let h = HistoryStore { vector, index: self.index, moved: self.moved };
        assert(h@.0 =~= self@.0);
        h
    }
}

/// A copy shares the states.
impl<T> Clone for HistoryStore<T> {
    fn clone(&self) -> (h: Self)
        ensures
            h@ == self@,
            h.store_moved() == self.store_moved(),
    {
        self.duplicate()
    }
}

impl<T: Store> Store for HistoryStore<T> {
    /// A history that holds a freshly created state of the store alone: what `T::new` returns
    /// on an empty context of its own. The history's context is left as it is. To start a
    /// history from the state a store already has, make it with [`HistoryStore::with_state`].
    fn new(cx: &mut Context<Self>) -> (h: Self)
        ensures
            h@.0.len() == 1,
            h@.1 == 0,
            !h.store_moved(),
            exists|scratch: &mut Context<T>|
                #[trigger] call_ensures(T::new, (scratch,), h@.0[0]) && scratch.state() is None
                    && scratch.subscribers() =~= Map::empty() && scratch.listeners() =~= Seq::empty()
                    && scratch.pending() =~= Seq::empty(),
            *final(cx) == *old(cx),
    {
        let mut scratch = Context::<T>::new();
        let state = T::new(&mut scratch);
        let h = HistoryStore::with_state(Rc::new(state));
        assert(h@.0[0] == state);
        h
    }

    /// Every change of the history reaches its subscribers.
    fn should_notify(&self, old: &Self) -> (r: bool)
        ensures
            r,
    {
        true
    }
}

impl<T: Store, R: Stores<T>> NewWith<R> for HistoryStore<T> {
    /// A history that holds the state that the store `T` has in the application alone
    /// (created if it does not exist yet). The history's context is left as it is.
    fn new_with(cx: &mut Context<Self>, stores: &mut R) -> (h: Self)
        ensures
            h@.0.len() == 1,
            h@.1 == 0,
            !h.store_moved(),
            exists|r: &mut R, state: Rc<T>|
                #[trigger] call_ensures(<R as Stores<T>>::get, (r,), state) && *state == h@.0[0]
                    && *r == *old(stores) && *final(r) == *final(stores),
            *final(cx) == *old(cx),
    {
        let state = stores.get();
        let h = HistoryStore::with_state(Rc::clone(&state));
        assert(h@.0[0] == *state);
        h
    }

}

impl<T> Reducer<HistoryStore<T>> for HistoryMessage {
    open spec fn spec_accepts(&self, state: HistoryStore<T>) -> bool {
        true
    }

    open spec fn spec_reduces(&self, old: HistoryStore<T>, new: HistoryStore<T>) -> bool {
        &&& new@ == spec_applied(old@, *self)
        &&& new.store_moved() == spec_moves(old@, *self)
    }

    fn apply(self, state: Rc<HistoryStore<T>>) -> (new: Rc<HistoryStore<T>>) {
        let mut h = state.duplicate();
        proof {
            use_type_invariant(&h);
        }
        let moved = match self {
            HistoryMessage::Undo => {
                if h.index > 0 {
                    h.index = h.index - 1;
                    true
                } else {
                    false
                }
            },
            HistoryMessage::Redo => {
                if h.index < h.vector.len() - 1 {
                    h.index = h.index + 1;
                    true
                } else {
                    false
                }
            },
            HistoryMessage::Clear => {
                let current = Rc::clone(&h.vector[h.index]);
                let mut vector = Vec::new();
                vector.push(current);
                h = HistoryStore { vector, index: 0, moved: false };
                assert(h@.0 =~= seq![state@.0[state@.1 as int]]);
                false
            },
            HistoryMessage::JumpTo(index) => {
                if index < h.vector.len() {
                    h.index = index;
                    true
                } else {
                    false
                }
            },
        };
        h.moved = moved;
        Rc::new(h)
    }
}

/// The change of a store that its history records.
pub struct HistoryChangeMessage<T>(pub Rc<T>);

impl<T> Reducer<HistoryStore<T>> for HistoryChangeMessage<T> {
    open spec fn spec_accepts(&self, state: HistoryStore<T>) -> bool {
        true
    }

    /// The history records the state, unless the state is (as an allocation) the current one,
    /// which it then equals. Either way the store is not to be moved.
    open spec fn spec_reduces(&self, old: HistoryStore<T>, new: HistoryStore<T>) -> bool {
        &&& {
            ||| new@ == spec_recorded(old@, *self.0)
            ||| new@ == old@ && *self.0 == old@.0[old@.1 as int]
        }
        &&& !new.store_moved()
    }

    fn apply(self, state: Rc<HistoryStore<T>>) -> (new: Rc<HistoryStore<T>>) {
        if state.matches_current(&self.0) {
            let mut h = state.duplicate();
            proof {
                use_type_invariant(&h);
            }
            h.moved = false;
            return Rc::new(h);
        }
        let before = state.duplicate();
        proof {
            use_type_invariant(&before);
            assert(before.index < before.vector.len());
        }
        let index = before.index + 1;
        let mut vector: Vec<Rc<T>> = Vec::new();
        let mut i: usize = 0;
        while i < index
            invariant
                index == before.index + 1,
                index <= before.vector@.len(),
                i <= index,
                vector@.len() == i,
                forall|j: int| 0 <= j < i ==> *vector@[j] == *before.vector@[j],
            decreases index - i,
        {
            vector.push(Rc::clone(&before.vector[i]));
            i = i + 1;
        }
        vector.push(self.0);
        let h = HistoryStore { vector, index, moved: false };
        assert(h@.0 =~= before@.0.take(before@.1 + 1int).push(*self.0));
        Rc::new(h)
    }
}

/// Records every change of the store `T` in the store's history.
pub struct HistoryListener<T>(PhantomData<T>);

impl<T> HistoryListener<T> {
    pub fn new() -> Self {
        HistoryListener(PhantomData)
    }
}

impl<T: Store> Listener for HistoryListener<T> {
    type Store = T;

    type Target = Context<HistoryStore<T>>;

    fn on_change(&self, target: &mut Context<HistoryStore<T>>, state: Rc<T>)
        ensures
            Context::reduce_post(*old(target), HistoryChangeMessage(state), *final(target)),
    {
        target.reduce(HistoryChangeMessage(state));
    }
}

/// `post` is the store `pre` after it followed its history `history`: set to the history's
/// current state where the history's last change moved it, and else left as it was.
pub open spec fn follows_history<T: Store>(
    history: HistoryStore<T>,
    pre: Context<T>,
    post: Context<T>,
) -> bool {
    &&& history.store_moved() ==> Context::set_post(pre, spec_current(history@), post)
    &&& !history.store_moved() ==> post == pre
}

/// Sets the store `T` to the current state of its history whenever a history message moves
/// the history.
pub struct HistoryTargetListener<T>(PhantomData<T>);

impl<T> HistoryTargetListener<T> {
    pub fn new() -> Self {
        HistoryTargetListener(PhantomData)
    }
}

impl<T: Store> Listener for HistoryTargetListener<T> {
    type Store = HistoryStore<T>;

    type Target = Context<T>;

    fn on_change(&self, target: &mut Context<T>, state: Rc<HistoryStore<T>>)
        ensures
            follows_history(*state, *old(target), *final(target)),
    {
        if state.moved() {
            let current = Rc::clone(state.current());
            target.reduce(Replace(current));
            assert(Context::set_post(*old(target), *current, *target));
        }
    }
}

/// Apply a history message: the history moves, and where it moves to another state, the store
/// is set to that state.
pub fn apply_history<T: Store>(
    history: &mut Context<HistoryStore<T>>,
    target: &mut Context<T>,
    message: HistoryMessage,
) -> (moved: bool)
    ensures
        exists|before: HistoryStore<T>, mid: Context<HistoryStore<T>>|
            #![trigger Context::get_post(*old(history), before, mid)]
            Context::get_post(*old(history), before, mid) && moved == spec_moves(before@, message)
                && Context::reduce_post(mid, message, *final(history)),
        moved ==> Context::set_post(
            *old(target),
            spec_current(final(history).state().unwrap()@),
            *final(target),
        ),
        !moved ==> *final(target) == *old(target),
{
    let before = history.get();
    let ghost mid = *history;
    let moved = before.moves(&message);
    history.reduce(message);
    if moved {
        let after = history.get();
        let current = Rc::clone(after.current());
        target.reduce(Replace(current));
        assert(Context::set_post(*old(target), *current, *target));
    }
    assert(Context::get_post(*old(history), *before, mid));
    moved
}

/// A history message moves the store with its history: once the store has followed the
/// history, it holds the history's new current state where the message moved the history, and
/// is as it was where the message did not.
pub proof fn lemma_history_moves_store<T: Store>(
    history: Context<HistoryStore<T>>,
    message: HistoryMessage,
    moved: Context<HistoryStore<T>>,
    store: Context<T>,
    followed: Context<T>,
)
    requires
        history.state() is Some,
        Context::reduce_post(history, message, moved),
        follows_history(moved.state().unwrap(), store, followed),
    ensures
        moved.state().unwrap()@ == spec_applied(history.state().unwrap()@, message),
        spec_moves(history.state().unwrap()@, message) ==> followed.state() == Some(
            spec_current(spec_applied(history.state().unwrap()@, message)),
        ),
        !spec_moves(history.state().unwrap()@, message) ==> followed == store,
{
}

/// Undo followed by redo gives back the history, and the store follows it back to the state
/// it had.
pub proof fn lemma_undo_redo_moves_store<T: Store>(
    history: Context<HistoryStore<T>>,
    undone: Context<HistoryStore<T>>,
    redone: Context<HistoryStore<T>>,
    store: Context<T>,
    after_undo: Context<T>,
    after_redo: Context<T>,
)
    requires
        history.state() is Some,
        spec_well_formed(history.state().unwrap()@),
        spec_can_apply(history.state().unwrap()@, HistoryMessage::Undo),
        Context::reduce_post(history, HistoryMessage::Undo, undone),
        follows_history(undone.state().unwrap(), store, after_undo),
        Context::reduce_post(undone, HistoryMessage::Redo, redone),
        follows_history(redone.state().unwrap(), after_undo, after_redo),
    ensures
        redone.state().unwrap()@ == history.state().unwrap()@,
        after_redo.state() == Some(spec_current(history.state().unwrap()@)),
{
    let h = history.state().unwrap()@;
    lemma_history_moves_store(history, HistoryMessage::Undo, undone, store, after_undo);
    lemma_history_moves_store(undone, HistoryMessage::Redo, redone, after_undo, after_redo);
    lemma_undo_redo(h);
}

/// Any state of a history can be jumped to, the newest among them: a jump to a position of
/// the history makes that position current, keeps the states, moves the store to that state,
/// and can be applied wherever it is not the current position already.
pub proof fn lemma_jump_to_any_state<T>(old: HistoryStore<T>, i: usize, new: HistoryStore<T>)
    requires
        spec_well_formed(old@),
        i < old@.0.len(),
        HistoryMessage::JumpTo(i).spec_reduces(old, new),
    ensures
        new@.0 == old@.0,
        new@.1 == i,
        spec_current(new@) == old@.0[i as int],
        new.store_moved(),
        i != old@.1 ==> spec_can_apply(old@, HistoryMessage::JumpTo(i)),
        spec_moves(old@, HistoryMessage::JumpTo(i)),
{
}

/// Recording a change drops every state after the current one: the history keeps the states
/// up to the current one, the recorded state follows them and is current, and nothing is left
/// to redo. (Where the state is the current one itself, as an allocation, the history stays as
/// it was.)
pub proof fn lemma_record_drops_redo<T>(old: HistoryStore<T>, state: Rc<T>, new: HistoryStore<T>)
    requires
        spec_well_formed(old@),
        HistoryChangeMessage(state).spec_reduces(old, new),
    ensures
        new@.0.take(old@.1 + 1int) == old@.0.take(old@.1 + 1int),
        spec_current(new@) == *state,
        new@ != old@ ==> {
            &&& new@.1 == old@.1 + 1
            &&& new@.0.len() == old@.1 + 2
            &&& !spec_can_apply(new@, HistoryMessage::Redo)
        },
        !new.store_moved(),
{
    if new@ != old@ {
        assert(new@.0.take(old@.1 + 1int) =~= old@.0.take(old@.1 + 1int));
    }
}

/// Every move keeps a history well formed, and so does recording a change.
pub proof fn lemma_moves_keep_well_formed<T>(h: HistoryView<T>, message: HistoryMessage, state: T)
    requires
        spec_well_formed(h),
    ensures
        spec_well_formed(spec_applied(h, message)),
        spec_well_formed(spec_recorded(h, state)),
{
}

/// A message can be applied exactly when it changes the history.
pub proof fn lemma_can_apply_iff_changes<T>(h: HistoryView<T>, message: HistoryMessage)
    requires
        spec_well_formed(h),
    ensures
        spec_can_apply(h, message) <==> spec_applied(h, message) != h,
{
    if let HistoryMessage::Clear = message {
        if h.0.len() > 1 {
            assert(spec_applied(h, message).0.len() != h.0.len());
        } else {
            assert(spec_applied(h, message).0 =~= h.0);
        }
    }
}

/// Undo and redo undo each other.
pub proof fn lemma_undo_redo<T>(h: HistoryView<T>)
    requires
        spec_well_formed(h),
    ensures
        spec_can_apply(h, HistoryMessage::Undo) ==> spec_applied(
            spec_applied(h, HistoryMessage::Undo),
            HistoryMessage::Redo,
        ) == h,
        spec_can_apply(h, HistoryMessage::Redo) ==> spec_applied(
            spec_applied(h, HistoryMessage::Redo),
            HistoryMessage::Undo,
        ) == h,
{
}

/// Clearing keeps the current state alone; recording a change drops the states after the
/// current one and makes the new state current.
pub proof fn lemma_clear_and_record<T>(h: HistoryView<T>, state: T)
    requires
        spec_well_formed(h),
    ensures
        spec_applied(h, HistoryMessage::Clear) == (seq![spec_current(h)], 0nat),
        spec_current(spec_recorded(h, state)) == state,
        spec_recorded(h, state).0.take(h.1 + 1int) == h.0.take(h.1 + 1int),
{
    assert(spec_recorded(h, state).0.take(h.1 + 1int) =~= h.0.take(h.1 + 1int));
}

} // verus!
