//! State management for component trees: stores, their subscribers and listeners.

pub mod context;
pub mod derived_from;
pub mod dispatch;
pub mod functional;
pub mod history;
pub mod idb;
pub mod listener;
pub mod mrc;
pub mod storage;
pub mod store;
pub mod subscriber;

pub use context::Context;
pub use store::{Reducer, Store};
