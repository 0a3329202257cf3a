//! The commands and options of the `crev` program, as values.
use vstd::prelude::*;

verus! {

/// `id`: what to do with the id.
#[derive(Debug, Clone)]
pub struct Id {
    pub id_command: IdCommand,
}

/// Make a new id, or show the current one.
#[derive(Debug, Clone, Copy, PartialEq, Eq, Structural)]
pub enum IdCommand {
    Gen,
    Show,
}

/// `add`: files to add to the review.
#[derive(Debug, Clone)]
pub struct Add {
    pub paths: Vec<String>,
}

/// `remove`: files to take out of the review.
#[derive(Debug, Clone)]
pub struct Remove {
    pub paths: Vec<String>,
}

/// `trust add`: the ids to trust.
#[derive(Debug, Clone)]
pub struct TrustAdd {
    pub pub_ids: Vec<String>,
}

/// `trust`: add trusted ids.
#[derive(Debug, Clone)]
pub enum Trust {
    Add(TrustAdd),
}

/// `db git`: the arguments of `git`.
#[derive(Debug, Clone)]
pub struct Git {
    pub args: Vec<String>,
}

/// `db`: run `git` in the proof database, or fetch it.
#[derive(Debug, Clone)]
pub enum Db {
    Git(Git),
    Fetch,
}

/// `project review`: whether uncommitted changes are allowed.
#[derive(Debug, Clone, Copy, PartialEq, Eq, Structural)]
pub struct ProjectReview {
    pub allow_dirty: bool,
}

/// `project`: set up a project, review it, or verify it.
#[derive(Debug, Clone, Copy, PartialEq, Eq, Structural)]
pub enum Project {
    Init,
    Review(ProjectReview),
    Verify,
}

/// `verify`: how far the web of trust is followed, and the distance each
/// trust level adds.
#[derive(Debug, Clone)]
pub struct Verify {
    depth: u64,
    high_cost: u64,
    medium_cost: u64,
    low_cost: u64,
}

/// `commit`: commit all files, and whether uncommitted changes are allowed.
#[derive(Debug, Clone, Copy, PartialEq, Eq, Structural)]
pub struct Commit {
    pub all: bool,
    pub allow_dirty: bool,
}

/// The commands of `crev`.
#[derive(Debug, Clone)]
pub enum Command {
    Id(Id),
    Add(Add),
    Commit(Commit),
    Project(Project),
    Status,
    Remove(Remove),
    Verify(Verify),
    Trust(Trust),
    Db(Db),
}

/// The command line of `crev`.
#[derive(Debug, Clone)]
pub struct Opts {
    pub command: Command,
}

} // verus!
