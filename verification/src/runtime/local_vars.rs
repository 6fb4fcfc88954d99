//! The local variables of a frame. They are counted from 1.

use vstd::pervasive::unreached;
use vstd::prelude::*;
use crate::oops::share;
use crate::oops::{Oop, OopRef};
use crate::runtime::Slot;

verus! {

/// The local variables of a frame.
#[derive(Debug, Clone)]
pub struct LocalVars {
    slots: Vec<Slot>,
}

impl View for LocalVars {
    type V = Seq<Slot>;

    closed spec fn view(&self) -> Seq<Slot> {
        self.slots@
    }
}

impl LocalVars {
    /// Whether `pos` names one of the variables.
    pub open spec fn has(&self, pos: usize) -> bool {
        1 <= pos <= self@.len()
    }

    /// `size` variables that hold nothing yet.
    pub fn new(size: usize) -> (vars: Self)
        ensures
            vars@.len() == size,
            forall|i: int| 0 <= i < size ==> vars@[i] == Slot::Nop,
    {
        let mut slots: Vec<Slot> = Vec::new();
        let mut i: usize = 0;
        while i < size
            invariant
                i <= size,
                slots@.len() == i,
                forall|j: int| 0 <= j < i ==> slots@[j] == Slot::Nop,
            decreases size - i,
        {
            slots.push(Slot::Nop);
            i += 1;
        }
        LocalVars { slots }
    }

    /// The number of variables.
    pub fn size(&self) -> (n: usize)
        ensures
            n == self@.len(),
    {
        self.slots.len()
    }

    pub fn set_int(&mut self, pos: usize, value: i32)
        requires
            old(self).has(pos),
        ensures
            final(self)@ == old(self)@.update(pos - 1, Slot::Oop(Oop::Int(value))),
    {
        self.slots[pos - 1] = Slot::Oop(Oop::Int(value));
    }

    pub fn get_int(&self, pos: usize) -> (value: i32)
        requires
            self.has(pos),
            self@[pos - 1] is Oop,
            self@[pos - 1]->Oop_0 is Int,
        ensures
            self@[pos - 1] == Slot::Oop(Oop::Int(value)),
    {
        match &self.slots[pos - 1] {
            Slot::Oop(Oop::Int(value)) => *value,
            _ => unreached(),
        }
    }

    pub fn set_long(&mut self, pos: usize, value: i64)
        requires
            old(self).has(pos),
        ensures
            final(self)@ == old(self)@.update(pos - 1, Slot::Oop(Oop::Long(value))),
    {
        self.slots[pos - 1] = Slot::Oop(Oop::Long(value));
    }

    pub fn get_long(&self, pos: usize) -> (value: i64)
        requires
            self.has(pos),
            self@[pos - 1] is Oop,
            self@[pos - 1]->Oop_0 is Long,
        ensures
            self@[pos - 1] == Slot::Oop(Oop::Long(value)),
    {
        match &self.slots[pos - 1] {
            Slot::Oop(Oop::Long(value)) => *value,
            _ => unreached(),
        }
    }

    /// Stores a `float`, given by its bit pattern.
    pub fn set_float(&mut self, pos: usize, bits: u32)
        requires
            old(self).has(pos),
        ensures
            final(self)@ == old(self)@.update(pos - 1, Slot::Oop(Oop::Float(bits))),
    {
        self.slots[pos - 1] = Slot::Oop(Oop::Float(bits));
    }

    /// The bit pattern of the `float` at `pos`.
    pub fn get_float(&self, pos: usize) -> (bits: u32)
        requires
            self.has(pos),
            self@[pos - 1] is Oop,
            self@[pos - 1]->Oop_0 is Float,
        ensures
            self@[pos - 1] == Slot::Oop(Oop::Float(bits)),
    {
        match &self.slots[pos - 1] {
            Slot::Oop(Oop::Float(bits)) => *bits,
            _ => unreached(),
        }
    }

    /// Stores a `double`, given by its bit pattern.
    pub fn set_double(&mut self, pos: usize, bits: u64)
        requires
            old(self).has(pos),
        ensures
            final(self)@ == old(self)@.update(pos - 1, Slot::Oop(Oop::Double(bits))),
    {
        self.slots[pos - 1] = Slot::Oop(Oop::Double(bits));
    }

    /// The bit pattern of the `double` at `pos`.
    pub fn get_double(&self, pos: usize) -> (bits: u64)
        requires
            self.has(pos),
            self@[pos - 1] is Oop,
            self@[pos - 1]->Oop_0 is Double,
        ensures
            self@[pos - 1] == Slot::Oop(Oop::Double(bits)),
    {
        match &self.slots[pos - 1] {
            Slot::Oop(Oop::Double(bits)) => *bits,
            _ => unreached(),
        }
    }

    pub fn set_ref(&mut self, pos: usize, value: std::sync::Arc<OopRef>)
        requires
            old(self).has(pos),
        ensures
            final(self)@ == old(self)@.update(pos - 1, Slot::Oop(Oop::Reference(value))),
    {
        self.slots[pos - 1] = Slot::Oop(Oop::Reference(value));
    }

    pub fn get_ref(&self, pos: usize) -> (value: std::sync::Arc<OopRef>)
        requires
            self.has(pos),
            self@[pos - 1] is Oop,
            self@[pos - 1]->Oop_0 is Reference,
        ensures
            self@[pos - 1] == Slot::Oop(Oop::Reference(value)),
    {
        match &self.slots[pos - 1] {
            Slot::Oop(Oop::Reference(value)) => share(value),
            _ => unreached(),
        }
    }
}

} // verus!
