//! Durable storage core of a directory-backed key-value store.
//!
//! The crate decides; it performs no input or output itself. Every operation
//! is a small state machine: it names the next action for the caller to
//! perform on the file system, takes the outcome of that action, and answers
//! with the following action or with the operation's result. The caller runs
//! the loop:
//!
//! ```text
//! let mut step = store.set("key", b"value");
//! loop {
//!     match step {
//!         Step::Perform { state, action } => step = state.step(perform(action)),
//!         Step::Done { value } => break Ok(value),
//!         Step::Failed { error } => break Err(error),
//!     }
//! }
//! ```
//!
//! * [`commands`]: the store, with `set`, `get` and `delete`. A `set` has
//!   its event appended to the log before the file of the key is touched.
//! * [`startup`]: the start of a store, which replays the logs of earlier
//!   runs.
//! * [`wol`]: the events of the log and the engine that appends them.
//! * [`record`]: the layout of a log record, and the validation of a log.
//! * [`persist`]: reading, atomically replacing and removing one file.
//! * [`paths`]: where the files lie.
//! * [`io`]: actions, their outcomes, and the steps of an operation.
//! * [`disk`]: a model of the file system, and what the operations do on it.
//! * [`replay`]: what the start does on that model.
//! * [`config`]: the configuration and the check of the data directory.
//!
//! Two things are taken on trust from other crates: the digest of a
//! payload ([`digest`]) and the random suffix of a temporary file
//! ([`persist`]). Everything else is proved.

pub mod bytes;
pub mod commands;
pub mod config;
pub mod digest;
pub mod disk;
pub mod error;
pub mod io;
pub mod paths;
pub mod persist;
pub mod record;
pub mod replay;

pub mod startup;
pub mod wol;
