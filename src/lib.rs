//! Orchestration of a two-stage build: the package manager's build of a crate, then a
//! native plugin's configure and build with a build-system generator.
//!
//! `tokenize` splits the generator's extra arguments; `command` resolves the build
//! profile and forms command lines; `capture` and `cache` turn the build's event stream
//! into the files that hand each dependency's output directory to the native build;
//! `pipeline` makes every decision of a run as a state machine whose driver performs the
//! actions; `install` picks the installation root of the host application.

pub mod cache;
pub mod capture;
pub mod command;
pub mod install;
pub mod paths;
pub mod pipeline;
pub mod text;
pub mod tokenize;
