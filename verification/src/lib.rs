//! A number-guessing session: a secret in a fixed range, a line parser for
//! guesses, and a three-way comparison that drives the session to its
//! terminal state. A small geometric type rides along.

use vstd::prelude::*;

pub mod game;
pub mod parse;
pub mod rect;

verus! {

/// The smallest value a secret may take.
pub const SECRET_MIN: u32 = 1;

/// The largest value a secret may take.
pub const SECRET_MAX: u32 = 100;

} // verus!
