//! Derived, ephemeral machine flags.
//!
//! `zero`, `pos` and `neg` are recomputed after every arithmetic
//! instruction from the result's ordering against its type's zero value.
//! The comparison flags are reserved for an embedding that adds compare
//! instructions; nothing in the core instruction set sets them.  Flags are
//! not persisted across a machine reset.

use vstd::prelude::*;

verus! {

#[derive(Clone, Copy, PartialEq, Eq, Structural, Debug)]
pub struct Flags {
    pub zero: bool,
    pub neg: bool,
    pub pos: bool,
    pub equal: bool,
    pub less_than: bool,
    pub great_than: bool,
}

impl Flags {
    /// All flags start cleared.
    pub fn new() -> (r: Flags)
        ensures
            r == Flags::clear(),
    {
        Flags {
            zero: false,
            neg: false,
            pos: false,
            equal: false,
            less_than: false,
            great_than: false,
        }
    }

    /// The cleared flag bank.
    pub open spec fn clear() -> Flags {
        Flags {
            zero: false,
            neg: false,
            pos: false,
            equal: false,
            less_than: false,
            great_than: false,
        }
    }

    /// Clears every flag in place.
    pub fn reset(&mut self)
        ensures
            *final(self) == Flags::clear(),
    {
        self.zero = false;
        self.neg = false;
        self.pos = false;
        self.equal = false;
        self.less_than = false;
        self.great_than = false;
    }
}

} // verus!
