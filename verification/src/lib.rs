//! Back end of a tool that builds Android packages from Rust programs.
//!
//! The library holds the decisions of the build: how the command of each
//! compilation unit is rewritten (`compile`), which shared libraries a built
//! library drags along (`closure`, `closure_run`, `libraries`), what goes into the main
//! activity (`preprocessor`) and into the manifest (`manifest`), and which
//! steps assemble, align and sign a package (`package`). It reads no file and
//! starts no process: its caller does that and hands over what it found.

pub mod closure;
pub mod closure_run;
pub mod compile;
pub mod config;
pub mod error;
pub mod install;
pub mod java;
pub mod libraries;
pub mod manifest;
pub mod package;
pub mod paths;
pub mod preprocessor;
pub mod target;
pub mod text;
pub mod util;
