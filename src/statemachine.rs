//! A typestate machine: the states `A`, `B` and `C` are distinct types, and each
//! transition consumes the state it leaves.
//!
//! The only start is [`A::new`]; the transitions are `A -> B`, `B -> B`,
//! `B -> C` and `C -> A`. The fields are private, so no state can be built in
//! any other way, and a state that was left cannot be used again.

use vstd::prelude::*;

verus! {

/// The start state.
pub struct A {
    _secret: (),
}

/// The state reached from `A`, or from itself.
pub struct B {
    _secret: (),
}

/// The state reached from `B`, which leads back to `A`.
pub struct C {
    _secret: (),
}

impl A {
    /// Enters the machine in its start state.
    #[allow(clippy::new_without_default)]
    pub fn new() -> A
    {
        A { _secret: () }
    }

    /// Moves from `A` to `B`.
    pub fn b(self) -> B
    {
        B { _secret: () }
    }
}

impl B {
    /// Stays in `B`.
    pub fn b(self) -> B
    {
        B { _secret: () }
    }

    /// Moves from `B` to `C`.
    pub fn c(self) -> C
    {
        C { _secret: () }
    }
}

impl C {
    /// Moves from `C` back to `A`.
    pub fn a(self) -> A
    {
        A { _secret: () }
    }
}

} // verus!
