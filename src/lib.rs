//! Runtime support for running compilation units inside one sandboxed
//! process: a jobserver-compatible token pool, stream capture by descriptor
//! rotation, and the bookkeeping of a task runner built on both.

pub mod decimal;
pub mod text;
pub mod json;
pub mod outside;
pub mod token_queue;
pub mod jobserver;
pub mod helper;
pub mod capture;
pub mod runner;
pub mod fetch;
pub mod paths;
