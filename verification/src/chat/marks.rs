//! A number for each thread.

use vstd::prelude::*;
use crate::named::Named;

verus! {

/// A number for each thread, by its identifier.
pub type Marks = Named<usize>;

/// The number for a name, or zero.
pub open spec fn number_for(marks: Map<Seq<char>, usize>, key: Seq<char>) -> int {
    if marks.dom().contains(key) {
        marks[key] as int
    } else {
        0
    }
}

impl Named<usize> {
    /// The number for a name, or zero.
    pub fn number(&self, key: &str) -> (r: usize)
        ensures
            r == number_for(self@, key@),
    {
        match self.get(key) {
            Some(n) => *n,
            None => 0,
        }
    }
}

/// A mark that was never set stands at nought.
pub proof fn marks_begin_at_nought(marks: Map<Seq<char>, usize>, key: Seq<char>, value: usize)
    ensures
        !marks.dom().contains(key) ==> number_for(marks, key) == 0,
        number_for(marks.insert(key, value), key) == value,
{
}

} // verus!
