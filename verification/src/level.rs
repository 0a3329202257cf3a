use vstd::prelude::*;
use crate::text::str_eq;

verus! {

/// A four-step level, used for thoroughness, understanding and severity.
#[derive(Debug, Copy, Clone, PartialEq, Eq, Structural, PartialOrd, Ord)]
pub enum Level {
    Nil,
    Low,
    Medium,
    High,
}

/// Position of a level in the order `Nil < Low < Medium < High`.
pub open spec fn level_rank(l: Level) -> int {
    match l {
        Level::Nil => 0,
        Level::Low => 1,
        Level::Medium => 2,
        Level::High => 3,
    }
}

/// The name of a level as it is written in proofs and on the command line.
pub open spec fn level_text(l: Level) -> Seq<char> {
    match l {
        Level::Nil => "none"@,
        Level::Low => "low"@,
        Level::Medium => "medium"@,
        Level::High => "high"@,
    }
}

/// The level that a text names, if any.
pub open spec fn level_from_text(s: Seq<char>) -> Option<Level> {
    if s == "none"@ {
        Some(Level::Nil)
    } else if s == "low"@ {
        Some(Level::Low)
    } else if s == "medium"@ {
        Some(Level::Medium)
    } else if s == "high"@ {
        Some(Level::High)
    } else {
        None
    }
}

impl Default for Level {
    fn default() -> (l: Self)
        ensures
            l == Level::Medium,
    {
        Level::Medium
    }
}

/// A text that names no level.
#[derive(Debug)]
pub struct FromStrErr;

impl Level {
    /// The name of the level (`none`, `low`, `medium` or `high`).
    pub fn as_str(&self) -> (s: &'static str)
        ensures
            s@ == level_text(*self),
    {
        match self {
            Level::Nil => "none",
            Level::Low => "low",
            Level::Medium => "medium",
            Level::High => "high",
        }
    }

    /// The level named by `s`; an error for any other text.
    pub fn parse(s: &str) -> (r: Result<Level, FromStrErr>)
        ensures
            r matches Ok(l) ==> level_from_text(s@) == Some(l),
            r is Err ==> level_from_text(s@) is None,
    {
        if str_eq(s, "none") {
            Ok(Level::Nil)
        } else if str_eq(s, "low") {
            Ok(Level::Low)
        } else if str_eq(s, "medium") {
            Ok(Level::Medium)
        } else if str_eq(s, "high") {
            Ok(Level::High)
        } else {
            Err(FromStrErr)
        }
    }

    /// Does `self` come before `other` in the order `Nil < Low < Medium < High`?
    pub fn is_below(&self, other: &Level) -> (r: bool)
        ensures
            r == (level_rank(*self) < level_rank(*other)),
    {
        self.rank() < other.rank()
    }

    fn rank(&self) -> (r: u8)
        ensures
            r == level_rank(*self),
    {
        match self {
            Level::Nil => 0,
            Level::Low => 1,
            Level::Medium => 2,
            Level::High => 3,
        }
    }
}

impl std::str::FromStr for Level {
    type Err = FromStrErr;

    /// The value named by `s` (see [`level_from_text`]); an error where `s` names
    /// none.
    fn from_str(s: &str) -> (r: Result<Level, FromStrErr>)
        ensures
            r matches Ok(v) ==> level_from_text(s@) == Some(v),
            r is Err ==> level_from_text(s@) is None,
    {
        Level::parse(s)
    }
}

/// The name of a level reads back as that level.
pub proof fn lemma_level_text_roundtrip(l: Level)
    ensures
        level_from_text(level_text(l)) == Some(l),
{
    reveal_strlit("none");
    reveal_strlit("low");
    reveal_strlit("medium");
    reveal_strlit("high");
    assert("none"@.len() == 4 && "low"@.len() == 3 && "medium"@.len() == 6 && "high"@.len() == 4);
    assert("none"@[0] == 'n' && "high"@[0] == 'h');
}

} // verus!
