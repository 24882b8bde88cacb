//! A driver for the edit, build, boot and test cycle of a kernel.
//!
//! A test script says what it needs: an architecture, processors, memory,
//! kernel configuration options, arguments for the build and for the
//! virtual machine. This library reads those requirements, merges them into
//! the configuration, plans the configuration and build of the kernel, and
//! composes the command that boots it. What touches the outside world is
//! described as plain values: the program that calls the library runs the
//! processes and moves the files.

pub mod boot;
pub mod commands;
pub mod config;
pub mod decimal;
pub mod deps;
pub mod deps_laws;
pub mod err;
pub mod host;
pub mod kbuild;
pub mod kconfig;
pub mod make;
pub mod path;
pub mod process;
pub mod text;

pub use deps::Deps;
pub use err::{Context, Error, ErrorKind};
