//! Reconciliation core of a deterministic lockstep simulation.
//!
//! Two parallel executions of the same simulation are kept: an authoritative
//! track driven only by network-confirmed input, and a predicted track driven
//! by speculative local input applied ahead of confirmation to hide latency.
//! Each frame the reconciler drains confirmed ticks into the authoritative
//! track and, exactly when that drain consumed all confirmed knowledge,
//! instructs the host to rebase (copy canonical state onto predicted state)
//! before advancing the predicted track.
//!
//! The host supplies the simulation itself through callback traits; the core
//! guarantees, by contract, which tick batches reach those callbacks, in what
//! order, and when the rebase fires.

pub mod assent;
pub mod rectify;
pub mod seer;
pub mod steps;
