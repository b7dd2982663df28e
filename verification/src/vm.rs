//! The memory that one interpreter instance runs in.

use vstd::prelude::*;

verus! {

/// The heap of an interpreter and the mark of the top of its stack. The
/// interpreter is started on a pinned value of this type and keeps pointers
/// into it for as long as it runs.
pub struct VmState<const HEAP_SIZE: usize> {
    pub heap: [u8; HEAP_SIZE],
    pub stack_top: i32,
}

impl<const HEAP_SIZE: usize> VmState<HEAP_SIZE> {
    /// A zeroed heap and a zero mark.
    pub fn new() -> (state: Self)
        ensures
            state.stack_top == 0,
            state.heap@.len() == HEAP_SIZE,
            forall|i: int| 0 <= i < HEAP_SIZE ==> state.heap@[i] == 0,
    {
        Self { heap: [0u8; HEAP_SIZE], stack_top: 0 }
    }
}

impl<const HEAP_SIZE: usize> Default for VmState<HEAP_SIZE> {
    fn default() -> (state: Self)
        ensures
            state.stack_top == 0,
            state.heap@.len() == HEAP_SIZE,
            forall|i: int| 0 <= i < HEAP_SIZE ==> state.heap@[i] == 0,
    {
        Self::new()
    }
}

} // verus!
