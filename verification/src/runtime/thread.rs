//! The states of a thread of the virtual machine.

use vstd::prelude::*;

verus! {

/// What a thread is doing, as the runtime sees it.
#[derive(Debug, Clone, Copy, PartialEq, Eq)]
pub enum JavaThreadState {
    Uninitialized,
    New,
    NewTrans,
    InNative,
    InNativeTrans,
    InVm,
    InVmTrans,
    InJava,
    InJavaTrans,
    Blocked,
    BlockedTrans,
    MaxState,
}

impl JavaThreadState {
    /// The number by which the runtime knows the state.
    pub open spec fn spec_code(self) -> u8 {
        match self {
            JavaThreadState::Uninitialized => 0,
            JavaThreadState::New => 2,
            JavaThreadState::NewTrans => 3,
            JavaThreadState::InNative => 4,
            JavaThreadState::InNativeTrans => 5,
            JavaThreadState::InVm => 6,
            JavaThreadState::InVmTrans => 7,
            JavaThreadState::InJava => 8,
            JavaThreadState::InJavaTrans => 9,
            JavaThreadState::Blocked => 10,
            JavaThreadState::BlockedTrans => 11,
            JavaThreadState::MaxState => 12,
        }
    }

    /// The number by which the runtime knows the state.
    pub fn code(self) -> (code: u8)
        ensures
            code == self.spec_code(),
    {
        match self {
            JavaThreadState::Uninitialized => 0,
            JavaThreadState::New => 2,
            JavaThreadState::NewTrans => 3,
            JavaThreadState::InNative => 4,
            JavaThreadState::InNativeTrans => 5,
            JavaThreadState::InVm => 6,
            JavaThreadState::InVmTrans => 7,
            JavaThreadState::InJava => 8,
            JavaThreadState::InJavaTrans => 9,
            JavaThreadState::Blocked => 10,
            JavaThreadState::BlockedTrans => 11,
            JavaThreadState::MaxState => 12,
        }
    }
}

} // verus!
