use vstd::prelude::*;

verus! {

/// Index of a terminal in its network's terminal collection.
#[derive(Clone, Copy, Debug, PartialEq, Eq, Structural, PartialOrd, Ord, Hash)]
pub struct TerminalAddress(pub usize);

/// Index of a link in its network's link collection.
#[derive(Clone, Copy, Debug, PartialEq, Eq, Structural, PartialOrd, Ord, Hash)]
pub struct LinkAddress(pub usize);

} // verus!
