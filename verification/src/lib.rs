//! A sampling and reconciliation engine for a battery's energy rate.
//!
//! The library turns the raw outcome of a diagnostic command into a sample,
//! folds samples and configuration changes into one application state, and
//! describes the producers whose events drive that state.

pub mod text;
pub mod sampler;
pub mod state;
pub mod merger;
