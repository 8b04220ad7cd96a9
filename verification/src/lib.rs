//! A verified number-guessing game library.
//!
//! A game session holds a secret target in the closed range `[1, 100]`.
//! Each line of player input is parsed as a base-10 unsigned integer and
//! compared against the target, yielding directional feedback until the
//! target is guessed. The crate also holds a few small verified utilities:
//! a Fibonacci function and the lines of a traditional cumulative song.

use vstd::prelude::*;

pub mod fib;
pub mod game;
pub mod parse;
pub mod song;

verus! {

/// Feedback produced by comparing one guess against the target.
#[derive(Clone, Copy, Debug, PartialEq, Eq, Structural)]
pub enum Feedback {
    /// The guess is strictly below the target.
    TooSmall,
    /// The guess is strictly above the target.
    TooBig,
    /// The guess equals the target: the session is over.
    Win,
}

/// The fixed line of terminal feedback that each outcome earns.
pub open spec fn feedback_text(f: Feedback) -> Seq<char> {
    match f {
        Feedback::TooSmall => "Too small!"@,
        Feedback::TooBig => "Too big!"@,
        Feedback::Win => "You win!"@,
    }
}

impl Feedback {
    /// The fixed line of terminal feedback that this outcome earns.
    pub fn message(&self) -> (r: &'static str)
        ensures
            r@ == feedback_text(*self),
    {
        match self {
            Feedback::TooSmall => "Too small!",
            Feedback::TooBig => "Too big!",
            Feedback::Win => "You win!",
        }
    }
}

/// The feedback that a guess earns against a target.
pub open spec fn feedback_spec(guess: u32, target: u32) -> Feedback {
    if guess < target {
        Feedback::TooSmall
    } else if guess > target {
        Feedback::TooBig
    } else {
        Feedback::Win
    }
}

/// Three-way comparison of a guess against the target.
pub fn compare_guess(guess: u32, target: u32) -> (f: Feedback)
    ensures
        f == feedback_spec(guess, target),
{
    if guess < target {
        Feedback::TooSmall
    } else if guess > target {
        Feedback::TooBig
    } else {
        Feedback::Win
    }
}

} // verus!
