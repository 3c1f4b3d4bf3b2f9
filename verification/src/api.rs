//! What the engine and its driver say to each other.

use crate::function::Type;
use vstd::prelude::*;
use vstd::string::StringExecFns;

verus! {

/// A guess, as the driver submits it.
#[derive(Clone, Debug)]
pub struct AttemptData {
    /// What the player typed.
    pub input: String,
    /// How many guesses were evaluated before this one.
    pub attempts: usize,
}

/// What a driver learns when a session starts.
#[derive(Clone, Debug)]
pub struct StartMessage {
    pub date: String,
    pub attempt_url: String,
    pub possible_clues: usize,
    pub rules: String,
    pub version: String,
    pub nix_commit: String,
}

/// The feedback on one guess.
#[derive(Clone, Debug)]
pub struct AttemptMessage {
    pub success: bool,
    pub func: Option<String>,
    pub description: Option<String>,
    pub clues: Vec<String>,
    pub args: Matches,
    pub input: bool,
    pub output: bool,
}

/// The feedback on one guess, as plain values.
pub struct AttemptMessageView {
    pub success: bool,
    pub func: Option<Seq<char>>,
    pub description: Option<Seq<char>>,
    pub clues: Seq<Seq<char>>,
    pub args: Matches,
    pub input: bool,
    pub output: bool,
}

impl DeepView for AttemptMessage {
    type V = AttemptMessageView;

    open spec fn deep_view(&self) -> AttemptMessageView {
        AttemptMessageView {
            success: self.success,
            func: self.func.deep_view(),
            description: self.description.deep_view(),
            clues: self.clues.deep_view(),
            args: self.args,
            input: self.input,
            output: self.output,
        }
    }
}

/// How the guessed number of arguments stands to that of the target.
#[derive(Clone, Copy, Debug, PartialEq, Eq, Structural)]
pub enum Matches {
    TooLow,
    TooHigh,
    JustRight,
}

/// How a guessed number stands to the actual one: too low where it is
/// smaller, too high where it is greater.
pub open spec fn compare_counts(guess: int, actual: int) -> Matches {
    if guess < actual {
        Matches::TooLow
    } else if guess > actual {
        Matches::TooHigh
    } else {
        Matches::JustRight
    }
}

/// What the player reads for each outcome.
pub open spec fn matches_text(m: Matches) -> Seq<char> {
    match m {
        Matches::TooLow => "more"@,
        Matches::TooHigh => "less"@,
        Matches::JustRight => "just right :D"@,
    }
}

impl Matches {
    /// Compares a guessed number of arguments with the actual one.
    pub fn check(guess: u8, actual: u8) -> (r: Matches)
        ensures
            r == compare_counts(guess as int, actual as int),
    {
        Matches::check_counts(guess as usize, actual as usize)
    }

    /// Compares a guessed count with the actual one, whatever their size.
    pub fn check_counts(guess: usize, actual: usize) -> (r: Matches)
        ensures
            r == compare_counts(guess as int, actual as int),
    {
        if guess < actual {
            Matches::TooLow
        } else if guess > actual {
            Matches::TooHigh
        } else {
            Matches::JustRight
        }
    }

    /// Compares the guessed input and output type with the actual ones.
    pub fn check_types(guess: (&Type, &Type), actual: (&Type, &Type)) -> (r: (bool, bool))
        ensures
            r.0 == (*guess.0 == *actual.0),
            r.1 == (*guess.1 == *actual.1),
    {
        (guess.0.same_as(actual.0), guess.1.same_as(actual.1))
    }

    /// What the player reads for this outcome.
    pub fn to_string(&self) -> (r: String)
        ensures
            r@ == matches_text(*self),
    {
        match self {
            Matches::TooLow => String::from_str("more"),
            Matches::TooHigh => String::from_str("less"),
            Matches::JustRight => String::from_str("just right :D"),
        }
    }
}

} // verus!
