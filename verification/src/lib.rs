//! A point-to-point encrypted peer node, built around a specified core.
//!
//! The core is the per-connection actor model: a registry mapping a peer
//! address to a live connection handle, the decision logic of the facade
//! operations (connect, write, subscribe, close), the actor's event-step
//! function with its subscriber fan-out, and the classification of PEM
//! identity material.

pub mod actor;
pub mod addr;
pub mod node;
pub mod pem;
pub mod registry;
