//! The errors of the library.
use vstd::prelude::*;
use crate::id::IdError;

verus! {

/// What makes the data of a proof invalid.
#[derive(Debug, Clone, PartialEq, Eq)]
pub enum ValidationError {
    /// The proof has this kind, but that one was expected.
    InvalidKind(String, String),
    AlternativeSourceCanNotBeEmpty,
    AlternativeNameCanNotBeEmpty,
    IssuesWithAnEmptyIDFieldAreNotAllowed,
    AdvisoriesWithNoIDSAreNotAllowed,
    AdvisoriesWithAnEmptyIDFieldAreNotAllowed,
}

/// A YAML text that does not read as a draft or as a proof; the message of
/// the YAML parser is kept.
#[derive(Debug, Clone, PartialEq, Eq)]
pub enum ParseError {
    Draft(String),
    Proof(String),
}

/// The errors of this library.
#[derive(Debug, Clone, PartialEq, Eq)]
pub enum Error {
    KindFieldMissing,
    UnexpectedKindValueInALegacyFormat,
    ParsingErrorWhenLookingForStartOfCodeReviewProof,
    ParsingErrorTypeNameMismatchInTheSignature,
    ParsingErrorTypeNameMismatchInTheFooter,
    SignatureTooLong,
    UnexpectedEOFWhileParsing,
    ProofBodyTooLong,
    Validation(ValidationError),
    YAMLFormat(String),
    Id(IdError),
    Parse(ParseError),
    UnknownLevel(String),
    IO(String),
    BuildingProof(String),
    BuildingReview(String),
    SerializedTooManyProofs(usize),
}

impl From<ValidationError> for Error {
    fn from(e: ValidationError) -> (r: Error)
        ensures
            r == Error::Validation(e),
    {
        Error::Validation(e)
    }
}

impl vstd::std_specs::convert::FromSpecImpl<ValidationError> for Error {
    open spec fn obeys_from_spec() -> bool {
        true
    }

    open spec fn from_spec(e: ValidationError) -> Self {
        Error::Validation(e)
    }
}

impl From<IdError> for Error {
    fn from(e: IdError) -> (r: Error)
        ensures
            r == Error::Id(e),
    {
        Error::Id(e)
    }
}

impl vstd::std_specs::convert::FromSpecImpl<IdError> for Error {
    open spec fn obeys_from_spec() -> bool {
        true
    }

    open spec fn from_spec(e: IdError) -> Self {
        Error::Id(e)
    }
}

impl From<ParseError> for Error {
    fn from(e: ParseError) -> (r: Error)
        ensures
            r == Error::Parse(e),
    {
        Error::Parse(e)
    }
}

impl vstd::std_specs::convert::FromSpecImpl<ParseError> for Error {
    open spec fn obeys_from_spec() -> bool {
        true
    }

    open spec fn from_spec(e: ParseError) -> Self {
        Error::Parse(e)
    }
}

} // verus!
