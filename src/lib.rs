//! An append-only, deduplicated log of domain-change events that devices
//! push to and pull from to reconcile their state.

pub mod order;
pub mod event;
pub mod store;
pub mod sync;
pub mod laws;
pub mod api;
pub mod todos;
