//! The frame of one method call.

use vstd::pervasive::unreached;
use vstd::prelude::*;
use crate::oops::Oop;
use crate::runtime::{DataArea, Slot};
use crate::types_ref::MethodIdRef;
use crate::BytesRef;
use crate::ConstantPoolRef;

verus! {

/// The frame of one method call: where it stands in its code, and its data.
pub struct Frame {
    pub id: usize,
    pub pc: usize,
    pub stack_pointer: usize,
    pub constant_pool: ConstantPoolRef,
    pub method: MethodIdRef,
    pub code: BytesRef,
    pub data_area: DataArea,
}

impl Frame {
    /// The operand stack is sound and has room for one more value.
    pub open spec fn has_room(&self) -> bool {
        self.data_area.stack.wf() && self.data_area.stack@.len() < self.data_area.stack.limit()
    }

    /// The frame is as before but for its operand stack, on which `slot` now
    /// lies on top.
    pub open spec fn pushed(&self, before: Frame, slot: Slot) -> bool {
        &&& self.data_area.stack.wf()
        &&& self.data_area.stack@ == seq![slot] + before.data_area.stack@
        &&& self.data_area.stack.limit() == before.data_area.stack.limit()
        &&& self.data_area.local == before.data_area.local
        &&& self.data_area.value == before.data_area.value
        &&& self.id == before.id
        &&& self.pc == before.pc
        &&& self.stack_pointer == before.stack_pointer
        &&& self.constant_pool == before.constant_pool
        &&& self.method == before.method
        &&& self.code == before.code
    }

    /// A frame for a call of the method, at the start of its code, with
    /// locals and an operand stack of the sizes that the method's code asks
    /// for.
    pub fn new(
        mir: MethodIdRef,
        frame_id: usize,
        constant_pool: ConstantPoolRef,
        code: BytesRef,
    ) -> (frame: Self)
        requires
            mir.method.code_in_range(),
        ensures
            frame.id == frame_id,
            frame.pc == 0,
            frame.stack_pointer == 0,
            frame.constant_pool == constant_pool,
            frame.method == mir,
            frame.code == code,
            frame.data_area.stack.wf(),
            frame.data_area.stack@.len() == 0,
            frame.data_area.value is None,
    {
        let data_area = DataArea::new(mir.method.max_locals(), mir.method.max_stack());
        Frame { id: frame_id, pc: 0, stack_pointer: 0, constant_pool, method: mir, code, data_area }
    }

    pub fn push_int(&mut self, v: i32)
        requires
            old(self).has_room(),
        ensures
            final(self).pushed(*old(self), Slot::Oop(Oop::Int(v))),
    {
        self.data_area.stack.push(Slot::Oop(Oop::Int(v)));
    }

    /// Pushes a `float`, given by its bit pattern.
    pub fn push_float(&mut self, bits: u32)
        requires
            old(self).has_room(),
        ensures
            final(self).pushed(*old(self), Slot::Oop(Oop::Float(bits))),
    {
        self.data_area.stack.push(Slot::Oop(Oop::Float(bits)));
    }

    /// Pushes a `double`, given by its bit pattern.
    pub fn push_double(&mut self, bits: u64)
        requires
            old(self).has_room(),
        ensures
            final(self).pushed(*old(self), Slot::Oop(Oop::Double(bits))),
    {
        self.data_area.stack.push(Slot::Oop(Oop::Double(bits)));
    }

    pub fn push_long(&mut self, v: i64)
        requires
            old(self).has_room(),
        ensures
            final(self).pushed(*old(self), Slot::Oop(Oop::Long(v))),
    {
        self.data_area.stack.push(Slot::Oop(Oop::Long(v)));
    }

    pub fn push_null(&mut self)
        requires
            old(self).has_room(),
        ensures
            final(self).pushed(*old(self), Slot::Oop(Oop::Null)),
    {
        self.data_area.stack.push(Slot::Oop(Oop::Null));
    }

    pub fn push_nop(&mut self)
        requires
            old(self).has_room(),
        ensures
            final(self).pushed(*old(self), Slot::Nop),
    {
        self.data_area.stack.push(Slot::Nop);
    }

    /// Pushes a reference; no other value is taken.
    pub fn push_ref(&mut self, v: Oop)
        requires
            old(self).has_room(),
            v is Reference,
        ensures
            final(self).pushed(*old(self), Slot::Oop(v)),
    {
        self.data_area.stack.push(Slot::Oop(v));
    }

    /// Takes the value on top off the operand stack.
    pub fn pop(&mut self) -> (top: Oop)
        requires
            old(self).data_area.stack.wf(),
            old(self).data_area.stack@.len() > 0,
            old(self).data_area.stack@[0] is Oop,
        ensures
            old(self).pushed(*final(self), Slot::Oop(top)),
    {
        let ghost before = self.data_area.stack@;
        match self.data_area.stack.pop() {
            Some(Slot::Oop(oop)) => {
                proof {
                    assert(before =~= seq![Slot::Oop(oop)] + self.data_area.stack@);
                }
                oop
            },
            _ => unreached(),
        }
    }
}

} // verus!
