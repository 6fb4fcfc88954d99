//! The shared handles of the runtime.

use vstd::prelude::*;

verus! {

/// A class handle that several owners share.
pub type ClassRef = std::sync::Arc<crate::oops::class::ClassPtr>;

/// A field descriptor that several owners share.
pub type FieldIdRef = std::sync::Arc<crate::oops::field::FieldId>;

/// A method descriptor that several owners share.
pub type MethodIdRef = std::sync::Arc<crate::oops::method::MethodId>;

} // verus!
