//! The decision core of a small interactive command interpreter.
//!
//! A host program owns the terminal, the environment and the file system.
//! This library owns every decision: how a line splits into words, which
//! words name builtins, where an executable is found on a search path, and
//! what each command prints or asks the host to do.

pub mod text;
pub mod words;
pub mod builtin;
pub mod locate;
pub mod dispatch;
