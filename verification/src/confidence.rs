//! Confidence scores as exact fixed-point numbers.

use vstd::prelude::*;

verus! {

/// A confidence score in millionths: `1_000_000` stands for certainty, `0`
/// for none.
#[derive(Debug, Clone, Copy, PartialEq, Eq, Structural)]
pub struct Confidence {
    pub millionths: u32,
}

impl Confidence {
    /// The score `millionths / 1_000_000`.
    pub fn from_millionths(millionths: u32) -> (c: Confidence)
        ensures
            c.millionths == millionths,
    {
        Confidence { millionths }
    }

    /// True where the score lies strictly below `threshold`.
    pub fn is_below(&self, threshold: Confidence) -> (b: bool)
        ensures
            b == (self.millionths < threshold.millionths),
    {
        self.millionths < threshold.millionths
    }
}

} // verus!
