//! A unidirectional state-management runtime: state changes only through actions handed to
//! reducers, and the actions that a reducer emits are applied before any other.
//!
//! - [`dependencies`]: scoped registrations of shared values, with a cached default.
//! - [`reducer`]: reducers, their effects, and the algebra that composes them.
//! - [`composite`]: composites whose base logic sees the whole value, and alternates.
//! - [`store`]: the owner of one state and the order in which actions are applied.
//! - [`channel`]: the queue from many senders to the store.
//! - [`reactor`] and [`delay`]: the wake scheduler and one-shot waits for an instant.
//! - [`task`]: handles to asynchronous work and their cancellation.
//! - [`gesture`]: gesture recognition for user-interface elements.
pub mod channel;
pub mod composite;
pub mod delay;
pub mod dependencies;
pub mod gesture;
pub mod reactor;
pub mod reducer;
pub mod store;
pub mod task;
