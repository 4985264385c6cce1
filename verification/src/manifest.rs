//! The data model of the generated test-project manifest and cargo
//! configuration. These are plain values that the runner fills in; writing
//! them out as TOML and to disk lives with the caller.

use vstd::prelude::*;

verus! {

/// A generated `Cargo.toml`: one package, its dependencies, and one binary
/// per test case.
#[derive(Debug)]
pub struct Manifest {
    pub package: Package,
    pub dependencies: Vec<(String, Dependency)>,
    pub bins: Vec<Bin>,
}

/// The `[package]` table of a generated manifest.
#[derive(Debug)]
pub struct Package {
    pub name: String,
    pub version: String,
    pub edition: Edition,
    pub publish: bool,
}

/// The Rust edition a generated test project is built with.
#[derive(Debug, Clone, Copy, PartialEq, Eq, Structural)]
pub enum Edition {
    E2018,
}

/// One `[[bin]]` entry: a test case compiled as its own binary.
#[derive(Debug)]
pub struct Bin {
    pub name: String,
    pub path: String,
}

/// One dependency entry of the generated manifest.
#[derive(Debug)]
pub struct Dependency {
    pub version: Option<String>,
    pub path: Option<String>,
    pub features: Vec<String>,
}

/// A generated `.cargo/config`: only build settings.
#[derive(Debug)]
pub struct Config {
    pub build: Build,
}

/// The `[build]` table of a generated cargo configuration.
#[derive(Debug)]
pub struct Build {
    pub rustflags: Vec<String>,
}

} // verus!
