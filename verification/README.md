# yewdux

State management for component trees: stores, reducers, subscribers and listeners, with the
logic verified by Verus.

## Layout

- `src/` is the verified library.
  - `store.rs`: the `Store` and `Reducer` traits, and the `Replace` reducer.
  - `context.rs`: `Context<S>`, the context of one store. It holds the state (created with
    `Store::new` on first use), the subscribers, the types of the registered listeners, and the
    notifications that are due. A change of state does not call anybody: it queues a
    `Notification` (the new state and the subscribers to reach, in key order), which the owner
    of the context takes with `take_notifications` and delivers.
    A store that implements `NewWith` can instead be created with `get_with`, which hands
    its creation the other stores of the application (`Stores`).
  - `subscriber.rs`: the subscribers of a store, kept in a `slab::Slab` of tokens.
  - `listener.rs`: listeners, registered at most once per listener type.
  - `derived_from.rs`: stores derived from other stores.
  - `history.rs`: undo and redo over the states of a store. A history message moves the
    history and marks whether the store is to follow; `HistoryTargetListener` sets the store.
  - `storage.rs`: the listener that asks for a store to be saved to browser storage.
  - `functional.rs`: the decisions behind the selector hooks.
  - `idb.rs`: the queue of the IndexedDB agent: one pending write per database object, taken
    in the order of the objects' pointers.
  - `dispatch.rs`: the free functions through which a store is used.
- `app/` is the unverified part: the registry of all stores of an application (keyed by type),
  the subscriber callbacks and their delivery, `Dispatch`, `Mrc`, the yew hooks and root
  component, browser storage, the IndexedDB reactor and the input helpers.
- `tests/` runs the library.

Each public function states its result in its contract; the laws that relate several
functions (a read gives back the last write, a store is created once, a change reaches every
subscriber once and in key order, unsubscribing undoes subscribing, undo and redo undo each
other, ...) are public proof functions beside them.
