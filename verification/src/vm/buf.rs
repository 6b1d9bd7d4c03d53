//! A part of the Virtual Machine module. Implements the buffer which is
//! used for moving molecules. The buffer is reused by all VMs: it is
//! created once and cleared at the start of every move.
use vstd::prelude::*;
use std::collections::HashSet;
use crate::global::Offs;
use crate::utils::stack::Stack;

verus! {

/// Buffer and stack of moving atoms, used by the mov command. The stack
/// holds the offsets still to move; the set holds the offsets that atoms
/// have already been moved to. The stack size bounds how big a molecule one
/// mov call may carry.
pub struct MoveBuffer {
    /// The offsets already moved to within the running move.
    pub buf: HashSet<Offs>,
    /// The offsets that still wait for their move.
    pub stack: Stack<Offs>,
}

impl MoveBuffer {
    /// Creates a new instance of the buffer. All VMs should use the same
    /// buffer, so it should be created only once.
    pub fn new(size: usize) -> (b: MoveBuffer)
        ensures
            b.buf@ == Set::<Offs>::empty(),
            b.stack@ == Seq::<Offs>::empty(),
            b.stack.spec_cap() == size,
    {
        MoveBuffer { buf: HashSet::new(), stack: Stack::new(size) }
    }
}

} // verus!
