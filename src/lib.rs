//! A memoization guard for side-effecting operations whose result is a file or
//! a directory: decide whether a call can be skipped, and record its outcome.
pub mod decimal;
pub mod fingerprint;
pub mod guard;
pub mod markers;
pub mod strategy;

pub use fingerprint::{Arg, Fingerprint};
pub use guard::{Guard, Phase};
pub use markers::Markers;
pub use strategy::{Disk, FileExists, MarkerUpdate, Outcome, Strategy};
