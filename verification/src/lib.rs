//! A membership-lifecycle library: admission of identities into a
//! capacity-bounded club through an ordered wait list.
//!
//! Identities join a wait list, a privileged caller promotes them onto the
//! club roster, and a privileged caller removes members again. Uniqueness
//! within each list, the shared capacity bound, and the exclusion between
//! wait list and roster are stated as invariants and proved for every
//! operation. A small one-value counter with one-time initialization and
//! overflow-checked arithmetic lives in its own module as an independent
//! collaborator.

pub mod types;
pub mod keys;
pub mod bounded_list;
pub mod store;
pub mod service;
pub mod laws;
pub mod counter;
