//! Small helpers shared by all of `crev`: paths, emptiness tests, and the
//! decisions behind a yes/no prompt.
use vstd::prelude::*;
use std::collections::HashSet;
use vstd::std_specs::cmp::PartialEqSpec;
use crate::text::{push_str, str_eq};

verus! {

/// The path with `ext` appended to its last component (no separator added).
pub fn append_to_path(path: String, ext: &str) -> (r: String)
    ensures
        r@ == path@ + ext@,
{
    let mut path = path;
    push_str(&mut path, ext);
    path
}

/// Is `t` equal to the default value of its type?
pub fn is_equal_default<T: Default + PartialEq>(t: &T) -> (b: bool)
    ensures
        exists|d: T|
            #[trigger] call_ensures(T::default, (), d) && (T::obeys_eq_spec() ==> b == t.eq_spec(
                &d,
            )),
{
    let d = T::default();
    let b = *t == d;
    assert(call_ensures(T::default, (), d) && (T::obeys_eq_spec() ==> b == t.eq_spec(&d)));
    b
}

/// Is the slice empty?
pub fn is_vec_empty<T>(t: &[T]) -> (b: bool)
    ensures
        b == (t@.len() == 0),
{
    t.len() == 0
}

/// Is the set empty?
pub fn is_set_empty<T>(t: &HashSet<T>) -> (b: bool)
    ensures
        b == t@.is_empty(),
{
    t.is_empty()
}

/// Why an interactive action was cancelled.
#[derive(Debug, Clone, Copy, PartialEq, Eq, Structural)]
pub enum CancelledError {
    ByUser,
    NoInput,
}

impl CancelledError {
    /// The message of the error.
    pub fn message(&self) -> (s: &'static str)
        ensures
            s@ == match self {
                CancelledError::ByUser => "Cancelled by the user"@,
                CancelledError::NoInput => "Cancelled due to terminal I/O error"@,
            },
    {
        match self {
            CancelledError::ByUser => "Cancelled by the user",
            CancelledError::NoInput => "Cancelled due to terminal I/O error",
        }
    }
}

/// What a reply to a yes/no prompt means: `Some(Some(true))` for `y` or `Y`,
/// `Some(Some(false))` for `n` or `N`, `Some(None)` for an empty reply (the
/// default), and `None` for anything else, when the prompt asks again.
pub open spec fn yes_no_meaning(reply: Seq<char>) -> Option<Option<bool>> {
    if reply == "y"@ || reply == "Y"@ {
        Some(Some(true))
    } else if reply == "n"@ || reply == "N"@ {
        Some(Some(false))
    } else if reply.len() == 0 {
        Some(None)
    } else {
        None
    }
}

/// The meaning of a reply to a yes/no prompt (see [`yes_no_meaning`]).
pub fn yes_no_reply(reply: &str) -> (r: Option<Option<bool>>)
    ensures
        r == yes_no_meaning(reply@),
{
    if str_eq(reply, "y") || str_eq(reply, "Y") {
        Some(Some(true))
    } else if str_eq(reply, "n") || str_eq(reply, "N") {
        Some(Some(false))
    } else if reply.is_empty() {
        Some(None)
    } else {
        None
    }
}

/// Whether to try again after the answer to "Try again (Y/n)": yes unless
/// the user said no (cancelled by the user) or the terminal gave no answer
/// (cancelled for want of input). An empty answer means yes.
pub fn try_again_or_cancel(answer: Result<Option<bool>, ()>) -> (r: Result<(), CancelledError>)
    ensures
        r == match answer {
            Err(()) => Err(CancelledError::NoInput),
            Ok(Some(false)) => Err(CancelledError::ByUser),
            Ok(_) => Ok::<(), CancelledError>(()),
        },
{
    match answer {
        Err(()) => Err(CancelledError::NoInput),
        Ok(a) => {
            let yes = match a {
                Some(b) => b,
                None => true,
            };
            if !yes {
                return Err(CancelledError::ByUser);
            }
            Ok(())
        },
    }
}

} // verus!
