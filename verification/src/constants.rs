//! Symbols of the logical operators.

use vstd::prelude::*;

verus! {

/// Symbol of the logical conjunction.
pub const AND: char = '&';

/// Symbol of the logical disjunction.
pub const OR: char = '|';

/// Symbol of the exclusive disjunction.
pub const XOR: char = '^';

/// Symbol of the logical negation.
pub const NOT: char = '!';

} // verus!
