//! A verified booking core for a class-scheduling studio.
//!
//! The heart of the crate is the booking/inventory consistency subsystem:
//! reserving a limited-capacity lesson slot against a consumable membership
//! card balance, and the inverse operation (cancellation with refund).
//! Every state transition is specified as a mathematical function over a
//! view of the store, and the executable engine is proved to implement it.

pub mod boundary;
pub mod clock;
pub mod digits;
pub mod domain;
pub mod laws;
pub mod lemmas;
pub mod query;
pub mod settings;
pub mod state;
pub mod store;
