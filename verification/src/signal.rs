use vstd::prelude::*;

verus! {

/// The directional intent a strategy emits for the next tick.
#[derive(Debug, Clone, Copy, PartialEq, Eq, Structural)]
pub enum Signal {
    Sleep,
    Long,
    Short,
}

} // verus!
