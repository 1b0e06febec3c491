//! The structured failure type that every pipeline stage reports.

use vstd::prelude::*;

verus! {

/// A structured failure carrying a human-readable cause.
#[derive(Debug)]
pub struct Failure {
    pub message: String,
}

impl Failure {
    /// The failure's human-readable cause.
    pub fn text(&self) -> (r: &str)
        ensures
            r@ == self.message@,
    {
        self.message.as_str()
    }
}

} // verus!
