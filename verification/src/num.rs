//! Spec conversions of machine integers to mathematical ones.

use vstd::prelude::*;

verus! {

/// A position as a mathematical integer.
pub open spec fn idx(i: usize) -> int {
    i as int
}

/// A 128-bit integer as a mathematical integer.
pub open spec fn wide(x: i128) -> int {
    x as int
}

/// A length as a mathematical integer.
pub open spec fn len_int(n: nat) -> int {
    n as int
}

/// The code point of a character.
pub open spec fn code(c: char) -> nat {
    c as nat
}

/// The low byte of a character's code point.
pub open spec fn low_byte(c: char) -> u8 {
    c as u8
}

} // verus!
