//! The cache of what the entries of a constant pool were resolved to.

use vstd::pervasive::unreached;
use vstd::prelude::*;
use crate::oops::share;
use crate::types_ref::{FieldIdRef, MethodIdRef};
use crate::ConstantPoolRef;

verus! {

/// What an entry of a constant pool was resolved to.
pub enum ConstantCacheType {
    Field(FieldIdRef),
    Method(MethodIdRef),
}

impl ConstantCacheType {
    /// The field that the entry was resolved to.
    pub fn get_field(&self) -> (field: FieldIdRef)
        requires
            self is Field,
        ensures
            *self == ConstantCacheType::Field(field),
    {
        match self {
            ConstantCacheType::Field(field) => share(field),
            ConstantCacheType::Method(_) => unreached(),
        }
    }

    /// The method that the entry was resolved to.
    pub fn get_method(&self) -> (method: MethodIdRef)
        requires
            self is Method,
        ensures
            *self == ConstantCacheType::Method(method),
    {
        match self {
            ConstantCacheType::Method(method) => share(method),
            ConstantCacheType::Field(_) => unreached(),
        }
    }
}

/// What has been resolved. It holds a `hashbrown::HashMap` from the index of
/// an entry to what the entry was resolved to.
#[verifier::external_body]
pub struct Resolved {
    map: hashbrown::HashMap<usize, ConstantCacheType>,
}

/// What a cache holds, by the index of the entry.
pub uninterp spec fn resolved(cache: Resolved) -> Map<usize, ConstantCacheType>;

/// `HashMap::default`: a map that holds nothing, so no key leads anywhere.
#[verifier::external_body]
fn resolved_new() -> (cache: Resolved)
    ensures
        resolved(cache).dom() == Set::<usize>::empty(),
{
    Resolved { map: hashbrown::HashMap::default() }
}

/// A constant pool and what its entries were resolved to.
pub struct ConstantPoolCache {
    pub constant_pool: ConstantPoolRef,
    pub cache: Resolved,
}

impl ConstantPoolCache {
    /// A cache for the pool in which nothing is resolved yet.
    pub fn new(constant_pool: ConstantPoolRef) -> (cache: Self)
        ensures
            cache.constant_pool == constant_pool,
            resolved(cache.cache).dom() == Set::<usize>::empty(),
    {
        ConstantPoolCache { constant_pool, cache: resolved_new() }
    }

    /// Does nothing: fields are not resolved through the cache yet.
    pub fn get_field(&self, _idx: usize) {
    }
}

} // verus!
