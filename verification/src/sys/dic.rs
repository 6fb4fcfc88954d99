//! The dictionary of the classes that the system has loaded, by their names.

use vstd::pervasive::unreached;
use vstd::prelude::*;
use vstd::slice::slice_to_vec;
use vstd::utf8::{decode_utf8, valid_utf8};
use crate::oops::share;
use crate::string_from_utf8;
use crate::types_ref::ClassRef;

verus! {

/// The classes that the system has loaded. It holds a `hashbrown::HashMap`
/// from the name of a class to its handle.
#[verifier::external_body]
pub struct SystemDictionary {
    map: hashbrown::HashMap<String, ClassRef>,
}

/// The classes that a dictionary holds, by their names.
pub uninterp spec fn loaded(dictionary: SystemDictionary) -> Map<Seq<char>, ClassRef>;

/// `HashMap::default`: a map that holds nothing, so no key leads anywhere.
#[verifier::external_body]
fn map_new() -> (dictionary: SystemDictionary)
    ensures
        loaded(dictionary).dom() == Set::<Seq<char>>::empty(),
{
    SystemDictionary { map: hashbrown::HashMap::default() }
}

/// `HashMap::insert`: the key leads to the value from now on, whatever it led
/// to before, and the other keys lead where they led. What the key led to
/// before is handed back.
#[verifier::external_body]
fn map_insert(dictionary: &mut SystemDictionary, key: String, class: ClassRef) -> (before: Option<
    ClassRef,
>)
    ensures
        loaded(*final(dictionary)) == loaded(*old(dictionary)).insert(key@, class),
        before == if loaded(*old(dictionary)).dom().contains(key@) {
            Some(loaded(*old(dictionary))[key@])
        } else {
            None::<ClassRef>
        },
{
    dictionary.map.insert(key, class)
}

/// `HashMap::get`: what the key leads to, if it leads to anything.
#[verifier::external_body]
fn map_get<'a>(dictionary: &'a SystemDictionary, key: &str) -> (found: Option<&'a ClassRef>)
    ensures
        found == if loaded(*dictionary).dom().contains(key@) {
            Some(&loaded(*dictionary)[key@])
        } else {
            None::<&ClassRef>
        },
{
    dictionary.map.get(key)
}

impl SystemDictionary {
    /// A dictionary that holds no class.
    pub fn new() -> (dictionary: SystemDictionary)
        ensures
            loaded(dictionary).dom() == Set::<Seq<char>>::empty(),
    {
        map_new()
    }

    /// Records a loaded class under its name, which is given in UTF-8. A
    /// class that was recorded under the name before is forgotten.
    pub fn put(&mut self, key: &[u8], class: ClassRef)
        requires
            valid_utf8(key@),
        ensures
            loaded(*final(self)) == loaded(*old(self)).insert(decode_utf8(key@), class),
    {
        match string_from_utf8(slice_to_vec(key)) {
            Ok(name) => {
                let _ = map_insert(self, name, class);
            },
            Err(_) => unreached(),
        }
    }

    /// Looks a loaded class up by its name, which is given in UTF-8.
    pub fn find(&self, key: &[u8]) -> (found: Option<ClassRef>)
        requires
            valid_utf8(key@),
        ensures
            found == if loaded(*self).dom().contains(decode_utf8(key@)) {
                Some(loaded(*self)[decode_utf8(key@)])
            } else {
                None::<ClassRef>
            },
    {
        match string_from_utf8(slice_to_vec(key)) {
            Ok(name) => match map_get(self, name.as_str()) {
                Some(class) => Some(share(class)),
                None => None,
            },
            Err(_) => unreached(),
        }
    }
}

} // verus!
