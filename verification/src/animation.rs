//! Transitions: a duration in milliseconds together with its easing curve.

use vstd::prelude::*;

verus! {

/// The linear easing curve; evaluating it is the embedding application's
/// concern, the engine only selects it.
#[derive(Debug, Clone, Copy, PartialEq, Eq, Structural)]
pub struct Linear;

/// A parsed `transition` value: how long the change takes, in
/// milliseconds, and which easing curve drives it.
#[derive(Debug, Clone, Copy, PartialEq, Eq, Structural)]
pub struct Transition {
    pub duration: u64,
    pub easing: Linear,
}

impl Transition {
    pub fn new(duration: u64) -> (r: Self)
        ensures
            r == (Transition { duration, easing: Linear }),
    {
        Self { duration, easing: Linear }
    }
}

} // verus!
