//! A list of entries to be shown separated by a separator.

use vstd::prelude::*;

verus! {

/// A slice whose entries are shown separated by a separator.
pub struct SeparatedDisplay<'a, T>(pub &'a str, pub &'a [T]);

impl<'a, T> SeparatedDisplay<'a, T> {
    /// Separates entries with `", "`
    pub fn comma(value: &'a [T]) -> (r: Self)
        ensures
            r.0@ == ", "@,
            r.1@ == value@,
    {
        SeparatedDisplay(", ", value)
    }

    /// Separates entries with `"\n"`
    pub fn newline(value: &'a [T]) -> (r: Self)
        ensures
            r.0@ == "\n"@,
            r.1@ == value@,
    {
        SeparatedDisplay("\n", value)
    }
}

} // verus!
