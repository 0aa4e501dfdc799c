//! Verified core of a container-wrapper command-line tool.
//!
//! The library splits a raw command line into wrapper flags and the inner
//! command to run in a container, computes per-user image tags, parses the
//! container engine's tabular image listing, assembles Dockerfiles and the
//! engine invocations that build and run them. All I/O (files, processes,
//! environment) lives outside the library; these modules work on plain
//! values and carry contracts for everything they compute.

pub mod args;
pub mod builder;
pub mod config;
pub mod errors;
pub mod inventory;
pub mod launcher;
pub mod runner;
pub mod strutil;
pub mod tagger;
