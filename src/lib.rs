//! Fixture normalization and scaled execution for a conformance test corpus.
//!
//! The corpus holds one directory per section; the fixtures in it are turned
//! into [`Test`]s by the section's rule, and a [`runner::Runner`] executes
//! them section by section, tiny fixtures before full ones.

pub mod entry;
pub mod json;
pub mod naming;
pub mod normalize;
pub mod registry;
pub mod runner;
pub mod section;

pub use entry::{Entry, Test};
pub use json::Json;
pub use normalize::{normalize, EntryError};
pub use registry::{fixture_dir, Location, Registry};
pub use runner::{plan, process, BinaryRunner, DummyRunner, RunError, Runner, SpawnOptions, Suite, Summary};
pub use section::{Scale, Section, TokenError, Trace};
