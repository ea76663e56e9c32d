//! A runtime mock-dispatch engine.
//!
//! A mocked method forwards each call, as a method identity plus an argument
//! tuple, to a [`store::MockStore`]. The store keeps, per identity, an ordered
//! list of registered entries, each pairing an argument [`matcher`] with a
//! stubbed behavior and a call-count policy. Dispatch selects the first entry
//! whose matcher accepts the arguments and whose budget is not exhausted,
//! consumes one unit of budget, and runs the entry's stub; when no entry
//! serves the call it reports a diagnostic error instead.
//!
//! Registrations are built fluently through [`when::When`]: pick a matcher
//! with `with_args`, a budget with `times`, or switch to the one-shot builder
//! with `once`, then bind the behavior with `then_call` or `then_return`.

pub mod erased;
pub mod laws;
pub mod matcher;
pub mod mock;
pub mod store;
pub mod when;

pub use matcher::any;
pub use matcher::eq;
