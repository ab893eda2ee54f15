//! Declarative package reconciliation: given a desired manifest of packages
//! across several package-manager back ends, compute the minimal set of
//! install actions needed to converge, and drive their execution fail-fast.
//!
//! The library holds the verified core: entry descriptors and platform
//! filtering, installed-set line parsing, the reconciler that diffs desired
//! entries against an installed set, and the orchestrator state machine that
//! sequences probe, plan and install steps. All process invocation and
//! configuration I/O lives outside the library.
pub mod cargo;
pub mod config;
pub mod homebrew;
pub mod reconcile;
pub mod run;
pub mod snap;
pub mod strutil;
