//! The result of a review: how thorough it was, how well the code was
//! understood, and the rating given.
use vstd::prelude::*;
use crate::level::Level;

verus! {

/// The rating a review gives.
#[derive(Debug, Copy, Clone, PartialEq, Eq, Structural, PartialOrd, Ord)]
pub enum Rating {
    Negative,
    Neutral,
    Positive,
    Strong,
}

/// The name of a rating as it is written in proofs.
pub open spec fn rating_text(r: Rating) -> Seq<char> {
    match r {
        Rating::Negative => "negative"@,
        Rating::Neutral => "neutral"@,
        Rating::Positive => "positive"@,
        Rating::Strong => "strong"@,
    }
}

impl Default for Rating {
    fn default() -> (r: Self)
        ensures
            r == Rating::Neutral,
    {
        Rating::Neutral
    }
}

impl Rating {
    /// The name of the rating (see [`rating_text`]).
    pub fn as_str(&self) -> (s: &'static str)
        ensures
            s@ == rating_text(*self),
    {
        match self {
            Rating::Negative => "negative",
            Rating::Neutral => "neutral",
            Rating::Positive => "positive",
            Rating::Strong => "strong",
        }
    }
}

/// Information about a review result.
#[derive(Debug, Copy, Clone, PartialEq, Eq, Structural)]
pub struct Review {
    pub thoroughness: Level,
    pub understanding: Level,
    pub rating: Rating,
}

/// The empty review: no thoroughness, no understanding, a neutral rating.
pub open spec fn review_none() -> Review {
    Review { thoroughness: Level::Nil, understanding: Level::Nil, rating: Rating::Neutral }
}

impl Default for Review {
    fn default() -> (r: Self)
        ensures
            r == review_none(),
    {
        Review::new_none()
    }
}

impl Review {
    /// A positive review of low thoroughness and medium understanding.
    pub fn new_positive() -> (r: Self)
        ensures
            r == (Review {
                thoroughness: Level::Low,
                understanding: Level::Medium,
                rating: Rating::Positive,
            }),
    {
        Review { thoroughness: Level::Low, understanding: Level::Medium, rating: Rating::Positive }
    }

    /// A negative review of low thoroughness and medium understanding.
    pub fn new_negative() -> (r: Self)
        ensures
            r == (Review {
                thoroughness: Level::Low,
                understanding: Level::Medium,
                rating: Rating::Negative,
            }),
    {
        Review { thoroughness: Level::Low, understanding: Level::Medium, rating: Rating::Negative }
    }

    /// The empty review (see [`review_none`]).
    pub fn new_none() -> (r: Self)
        ensures
            r == review_none(),
    {
        Review { thoroughness: Level::Nil, understanding: Level::Nil, rating: Rating::Neutral }
    }

    /// Is this the empty review?
    pub fn is_none(&self) -> (b: bool)
        ensures
            b == (*self == review_none()),
    {
        let n = Review::new_none();
        self.thoroughness == n.thoroughness && self.understanding == n.understanding
            && self.rating == n.rating
    }
}

/// Information about an LLM agent that performed (or assisted) a review.
#[derive(Clone, Debug)]
pub struct LlmAgentInfo {
    /// Model identifier
    pub model: String,
    /// Model version, if known
    pub model_version: Option<String>,
    /// Whether a human guided the agent during the review.
    pub human_guided: bool,
}

} // verus!
