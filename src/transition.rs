//! Range transitions: an inclusive character range with at most one excluded
//! character, leading to a target state.
use vstd::prelude::*;

use crate::error::TableError;

verus! {

/// The mathematical content of a [`Transition`].
pub ghost struct TransitionView {
    pub min: char,
    pub max: char,
    pub exception: Option<char>,
    pub next_state: usize,
}

/// A guard is valid when its range is not empty and its exception, if any,
/// lies strictly inside the range.
pub open spec fn valid_guard(min: char, max: char, exception: Option<char>) -> bool {
    &&& min <= max
    &&& match exception {
        Some(e) => min < e && e < max,
        None => true,
    }
}

/// The error that construction reports for an invalid guard.
pub open spec fn guard_error(min: char, max: char, exception: Option<char>) -> TableError {
    if min > max {
        TableError::InvalidRange
    } else {
        TableError::InvalidException
    }
}

impl TransitionView {
    /// `ch` lies in `[min, max]` and is not the exception.
    pub open spec fn accepts(self, ch: char) -> bool {
        &&& self.min <= ch
        &&& ch <= self.max
        &&& self.exception != Some(ch)
    }

    pub open spec fn wf(self) -> bool {
        valid_guard(self.min, self.max, self.exception)
    }
}

/// An edge of the automaton, guarded by a character range with an optional
/// hole. Only [`Transition::new`] builds one, so its guard is always valid.
#[derive(Clone, Copy, Debug)]
pub struct Transition {
    min: char,
    max: char,
    exception: Option<char>,
    next_state: usize,
}

impl View for Transition {
    type V = TransitionView;

    closed spec fn view(&self) -> TransitionView {
        TransitionView {
            min: self.min,
            max: self.max,
            exception: self.exception,
            next_state: self.next_state,
        }
    }
}

impl Transition {
    /// Builds the transition `[min, max] \ {ex} -> next`, rejecting an empty
    /// range and an exception that is not strictly inside the range.
    pub fn new(min: char, max: char, ex: Option<char>, next: usize) -> (r: Result<
        Transition,
        TableError,
    >)
        ensures
            match r {
                Ok(t) => valid_guard(min, max, ex) && t@ == (TransitionView {
                    min,
                    max,
                    exception: ex,
                    next_state: next,
                }),
                Err(e) => !valid_guard(min, max, ex) && e == guard_error(min, max, ex),
            },
    {
        if min > max {
            return Err(TableError::InvalidRange);
        }
        if let Some(e) = ex {
            if e <= min || e >= max {
                return Err(TableError::InvalidException);
            }
        }
        Ok(Transition { min, max, exception: ex, next_state: next })
    }

    /// The target state when `ch` passes the guard, `None` otherwise.
    pub fn check(&self, ch: char) -> (r: Option<usize>)
        ensures
            r == (if self@.accepts(ch) {
                Some(self@.next_state)
            } else {
                None
            }),
    {
        if let Some(ex) = self.exception {
            if ch == ex {
                return None;
            }
        }
        if self.min <= ch && ch <= self.max {
            return Some(self.next_state);
        }
        None
    }

    /// Whether `ch` passes the guard.
    pub fn do_transition(&self, ch: char) -> (r: bool)
        ensures
            r == self@.accepts(ch),
    {
        match self.exception {
            Some(c) => ch != c && self.min <= ch && ch <= self.max,
            None => self.min <= ch && ch <= self.max,
        }
    }

    /// Whether the guard is exactly `[min, max] \ {ex}`.
    pub fn is_equal(&self, min: char, max: char, ex: Option<char>) -> (r: bool)
        ensures
            r == (self@.min == min && self@.max == max && self@.exception == ex),
    {
        self.min == min && self.max == max && same_exception(self.exception, ex)
    }

    /// Whether the guard is exactly `[min, max] \ {ex}`.
    pub fn is_same(&self, min: char, max: char, ex: Option<char>) -> (r: bool)
        ensures
            r == (self@.min == min && self@.max == max && self@.exception == ex),
    {
        self.is_equal(min, max, ex)
    }

    pub fn min(&self) -> (r: char)
        ensures
            r == self@.min,
    {
        self.min
    }

    pub fn max(&self) -> (r: char)
        ensures
            r == self@.max,
    {
        self.max
    }

    pub fn exception(&self) -> (r: Option<char>)
        ensures
            r == self@.exception,
    {
        self.exception
    }

    pub fn next_state(&self) -> (r: usize)
        ensures
            r == self@.next_state,
    {
        self.next_state
    }
}

fn same_exception(a: Option<char>, b: Option<char>) -> (r: bool)
    ensures
        r == (a == b),
{
    match (a, b) {
        (Some(x), Some(y)) => x == y,
        (None, None) => true,
        _ => false,
    }
}

/// Without an exception a transition accepts exactly its range; carving out
/// an exception strictly inside the range rejects that one character and
/// leaves every other character as it was.
pub proof fn lemma_exception_carves_one_char(min: char, max: char, e: char, next: usize, ch: char)
    requires
        min < e < max,
    ensures
        (TransitionView { min, max, exception: None, next_state: next }).accepts(ch) == (min <= ch
            && ch <= max),
        !(TransitionView { min, max, exception: Some(e), next_state: next }).accepts(e),
        ch != e ==> (TransitionView { min, max, exception: Some(e), next_state: next }).accepts(ch)
            == (TransitionView { min, max, exception: None, next_state: next }).accepts(ch),
{
}

} // verus!
