//! Reading and changing the environment variables of one remote function.
//!
//! The remote side offers two calls: fetch the configuration of a function,
//! and replace its environment. A change is made by reading, merging and
//! writing back: [`protocol`] says which call comes when and how a failure is
//! tagged, [`merge`] what the new environment is, and [`config`] what
//! environment a configuration carries. None of it performs a call: the
//! caller does, and reports back.
//!
//! [`cli`] reads the command line, and [`render`] writes an environment as
//! lines of text.

pub mod cli;
pub mod config;
pub mod error;
pub mod mapping;
pub mod merge;
pub mod protocol;
pub mod render;
pub mod text;

pub use cli::{Options, UsageError};
pub use config::{EnvironmentResponse, FunctionConfiguration};
pub use error::Error;
pub use mapping::Env;
pub use merge::Request;
pub use protocol::{Action, ActionView, Event, State};
