//! Commands for the `playerctl` program and the reading of what it prints.
//!
//! The library starts no program itself. `Command::args` gives the arguments
//! with which `playerctl` is to be run for an operation, and the function of
//! `Playerctl` with the operation's name reads what the run handed back: an
//! exit code and two texts, or the error with which the run was refused.
//!
//! - `command`: the operations and their arguments.
//! - `output`: a finished run, its response text and its failure.
//! - `playerctl`: the result of each operation.
//! - `status`, `position`, `metadata`: the three kinds of answer.
//! - `text`, `number`, `percent`: lines and fields, decimal numbers and
//!   percent-encoded URLs.
//! - `map`: the map from player names and property keys to values.
//! - `error`: the ways in which an operation fails.

pub mod command;
pub mod error;
pub mod map;
pub mod metadata;
pub mod number;
pub mod output;
pub mod percent;
pub mod playerctl;
pub mod position;
pub mod status;
pub mod text;

pub use command::Command;
pub use command::Offset;
pub use error::PlayerctlError;
pub use map::TextMap;
pub use metadata::PlayerMetadata;
pub use output::CommandOutput;
pub use playerctl::Playerctl;
pub use status::TrackStatus;
