//! The commands and options of `cargo trust`, as values.
use vstd::prelude::*;

verus! {

/// `id`: what to do with the id.
#[derive(Debug, Clone)]
pub struct Id {
    pub id_command: IdCommand,
}

/// Make a new id, or show the current one.
#[derive(Debug, Clone, Copy, PartialEq, Eq, Structural)]
pub enum IdCommand {
    Gen,
    Show,
}

/// `verify`: how far the web of trust is followed, and the distance each
/// trust level adds.
#[derive(Debug, Clone)]
pub struct Verify {
    depth: u64,
    high_cost: u64,
    medium_cost: u64,
    low_cost: u64,
}

/// A crate, and a version of it.
#[derive(Debug, Clone)]
pub struct Crate {
    pub name: String,
    pub version: Option<String>,
}

/// The commands of `cargo trust`.
#[derive(Debug, Clone)]
pub enum Command {
    Verify(Verify),
    Review(Crate),
    Flag(Crate),
    Id(Id),
}

/// `cargo trust`, as `cargo` runs it.
#[derive(Debug, Clone)]
pub enum MainCommand {
    Trust(Command),
}

/// The command line of `cargo trust`.
#[derive(Debug, Clone)]
pub struct Opts {
    pub command: MainCommand,
}

} // verus!
