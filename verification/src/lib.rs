//! Configuration front end of `rsnc`, a netcat-style network tool.
//!
//! The crate turns layered configuration sources into one operating mode and one
//! connection target:
//!
//! * [`Environment`] is an explicit table of environment variables.  A dotenv
//!   file is laid over it without replacing what is already set
//!   ([`set_dotenv`]).
//! * [`Cli::try_parse_from`] reads the command line against the option schema.
//!   For every option a value on the command line wins over the environment
//!   variable of that option, which wins over the built-in default.
//! * [`resolve`] maps the parsed options onto a [`ResolvedConfig`]: the
//!   [`NcMode`] and the validated target.
//!
//! Nothing here touches the process: callers hand in the argument list, the
//! environment table and the entries of the dotenv files as plain values.

pub mod cli;
pub mod environment;
pub mod error;
pub mod mode;
pub mod port;
pub mod resolver;
pub mod schema;
pub mod text;

pub use cli::Cli;
pub use environment::{readable_entries, set_dotenv, EnvSource, Environment};
pub use error::ConfigError;
pub use mode::NcMode;
pub use resolver::{resolve, resolve_from, select_mode, ResolvedConfig};
pub use schema::{CliOption, FlagSet, Token};
