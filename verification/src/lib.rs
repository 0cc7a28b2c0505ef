//! An emergent-coordination kernel for multi-agent artifact improvement.
//!
//! Source artifacts are partitioned into editable regions; a scalar pressure
//! field computed per region from weighted sensor signals drives patch
//! selection, with temporal decay and post-apply inhibition.  Real-valued
//! quantities (signals, weights, pressures) are held in fixed-point form
//! (see [`fixed`]), so every rule of the kernel is stated and checked
//! exactly.

pub mod fixed;
pub mod artifact;
pub mod baselines;
pub mod config;
pub mod corpus;
pub mod engine;
pub mod experiment;
pub mod kernel;
pub mod messages;
pub mod pressure;
pub mod region;
pub mod results;
pub mod sensors;
pub mod signals;
pub mod state;
