//! Store persistence through session or local storage: the listener that asks for the saves.
//! Reading and writing the browser's storage is left to the caller.

use std::marker::PhantomData;
use std::rc::Rc;

use vstd::prelude::*;
use vstd::string::*;

use crate::listener::Listener;
use crate::store::Store;

verus! {

/// Which of the browser's storages.
#[derive(Debug, Clone, Copy, PartialEq, Eq, Structural)]
pub enum Area {
    Local,
    Session,
}

impl Area {
    /// The storage that a store's `storage` option names: `"local"` or `"session"`. Any other
    /// name is refused.
    pub fn from_name(name: &str) -> (area: Option<Area>)
        ensures
            area == Some(Area::Local) <==> name@ == "local"@,
            area == Some(Area::Session) <==> name@ == "session"@,
            area is None <==> name@ != "local"@ && name@ != "session"@,
    {
        proof {
            reveal_strlit("local");
            reveal_strlit("session");
            assert("local"@.len() != "session"@.len());
        }
        let name = name.to_owned();
        if name == String::from_str("local") {
            Some(Area::Local)
        } else if name == String::from_str("session") {
            Some(Area::Session)
        } else {
            None
        }
    }
}

/// A [Listener] that asks for the state to be saved to browser storage whenever it has changed.
pub struct StorageListener<T> {
    area: Area,
    _marker: PhantomData<T>,
}

impl<T> StorageListener<T> {
    pub fn new(area: Area) -> (listener: Self)
        ensures
            listener.area() == area,
    {
        StorageListener { area, _marker: PhantomData }
    }

    /// The storage that the state is saved to.
    pub closed spec fn area(&self) -> Area {
        self.area
    }
}

impl<T: Store> Listener for StorageListener<T> {
    type Store = T;

    /// The saves that are due: each state with the storage it goes to.
    type Target = Vec<(Area, Rc<T>)>;

    fn on_change(&self, target: &mut Vec<(Area, Rc<T>)>, state: Rc<T>)
        ensures
            final(target)@ == old(target)@.push((self.area(), state)),
    {
        target.push((self.area, state));
    }
}

} // verus!
