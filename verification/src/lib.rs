//! The core of a desktop monitor for networked 3D printers.
//!
//! Printers report their state in small, often incomplete messages. This
//! library merges those reports into what is kept of each printer
//! (`merge`), classifies what the printer is doing from the result
//! (`classifier`, with `signals`, `status`, `job` and `fault`), and keeps
//! the registry of printers and the queue of commands (`service`). It
//! decides; the sessions, the clock of the network and the user interface
//! belong to its caller.

pub mod classifier;
pub mod clock;
pub mod command;
pub mod connection;
pub mod fault;
pub mod job;
pub mod json;
pub mod merge;
pub mod model;
pub mod number;
pub mod service;
pub mod signals;
pub mod status;
pub mod text;
pub mod tree;
