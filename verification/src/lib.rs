//! Generation of CMake `Find<Crate>.cmake` modules for Rust crates that
//! build a `staticlib` or `cdylib`.

pub mod metadata;
pub mod paths;
pub mod template;
pub mod text;

pub use metadata::{CrateInfo, LibKind};
pub mod cli;

pub use cli::CliArgs;
pub mod pipeline;
