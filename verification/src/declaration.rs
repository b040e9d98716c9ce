//! What a scan records for a variable: its type, where in the source
//! the type was fixed, and whether it was inferred or declared.

use crate::lattice::BashType;
use std::ops::Range;
use vstd::prelude::*;

verus! {

/// How the type of a variable was arrived at.
#[derive(Debug, PartialEq, Eq, Clone, Copy)]
pub enum Method {
    /// Read off the value that was assigned.
    Inferred,
    /// Written down in an annotation or a directive.
    Declared,
}

/// The type of one variable at the point where it was first bound.
///
/// `range` is a span of bytes in the source: the assignment alone when the
/// type was inferred, the assignment together with its annotation when the
/// type was declared.
#[derive(Debug, PartialEq, Eq)]
pub struct TypeDeclaration {
    pub range: Range<usize>,
    pub bash_type: BashType,
    pub method: Method,
}

impl Clone for TypeDeclaration {
    fn clone(&self) -> (r: Self)
        ensures
            r == *self,
    {
        TypeDeclaration {
            range: Range { start: self.range.start, end: self.range.end },
            bash_type: self.bash_type.clone(),
            method: self.method,
        }
    }
}

/// The smallest span that covers both `r1` and `r2`: from the lesser start
/// to the greater end.
pub open spec fn spec_combine_ranges(r1: Range<usize>, r2: Range<usize>) -> Range<usize> {
    Range {
        start: if r1.start <= r2.start {
            r1.start
        } else {
            r2.start
        },
        end: if r1.end >= r2.end {
            r1.end
        } else {
            r2.end
        },
    }
}

/// The smallest span that covers both `r1` and `r2`.
pub fn combine_ranges(r1: Range<usize>, r2: Range<usize>) -> (r: Range<usize>)
    ensures
        r == spec_combine_ranges(r1, r2),
{
    Range {
        start: if r1.start <= r2.start {
            r1.start
        } else {
            r2.start
        },
        end: if r2.end >= r1.end {
            r2.end
        } else {
            r1.end
        },
    }
}

} // verus!
