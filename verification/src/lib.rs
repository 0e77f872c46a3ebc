//! Trace tables for an interpreted WebAssembly module.
//!
//! The tracer turns the static structure of an instantiated module into dense
//! tables (instructions, memory and global image, indirect calls) and keeps the
//! bookkeeping of a run (event counter, call frames). Every function of this
//! crate carries a contract that Verus proves, but for the two calls into the
//! `regex` crate in [`matcher`], whose contracts are taken on trust.

pub mod matcher;
pub mod types;
pub mod module;
pub mod host;
pub mod itable;
pub mod translate;
pub mod phantom;
pub mod builder;
pub mod brtable;
pub mod etable;
pub mod frames;
pub mod jtable;
pub mod imtable;
pub mod tracer;
