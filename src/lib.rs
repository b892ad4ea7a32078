//! Resolution of browser-driver binaries: which driver version matches a
//! browser, where its release archive is downloaded from, and where it is
//! kept in the local cache.
//!
//! - [`config`]: platform names and the layered settings resolver (explicit
//!   value, config file, environment, default).
//! - [`metadata`]: the time-limited cache of resolved driver versions.
//! - [`firefox`]: the Firefox / geckodriver strategy.
//! - [`text`]: character-level helpers the others are built on.
//!
//! Reading files, the environment, running shell commands and HTTP requests is
//! left to the caller, which hands the results in as plain values.
use vstd::prelude::*;

pub mod config;
pub mod firefox;
pub mod metadata;
pub mod text;

verus! {

} // verus!
