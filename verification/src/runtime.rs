//! What the interpreter keeps while it runs.

use vstd::prelude::*;
use crate::oops::Oop;
use crate::runtime::local_vars::LocalVars;
use crate::stack::Stack;

pub mod constant_pool;
pub mod frame;
pub mod local_vars;
pub mod park;
pub mod thread;

verus! {

/// What can go wrong while the interpreter runs.
#[derive(Debug, Clone, Copy, PartialEq, Eq)]
pub enum Error {
    /// More values were pushed than the stack was made for.
    StackOverflow,
}

/// One slot of the local variables or of the operand stack.
#[derive(Debug, Clone, PartialEq, Eq)]
pub enum Slot {
    Oop(Oop),
    Nop,
}

/// The data of one frame: its local variables, its operand stack, and the
/// value that it returns.
pub struct DataArea {
    pub local: LocalVars,
    pub stack: Stack<Slot>,
    pub value: Option<Oop>,
}

impl DataArea {
    /// Empty locals for `max_locals` variables and an empty stack for
    /// `max_stack` operands.
    pub fn new(max_locals: usize, max_stack: usize) -> (area: Self)
        ensures
            area.local@.len() == max_locals,
            forall|i: int| 0 <= i < max_locals ==> area.local@[i] == Slot::Nop,
            area.stack.wf(),
            area.stack@.len() == 0,
            area.stack.limit() == max_stack,
            area.value is None,
    {
        DataArea { local: LocalVars::new(max_locals), stack: Stack::new(max_stack), value: None }
    }
}

} // verus!
