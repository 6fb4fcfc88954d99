//! Modules as the runtime records them.

use vstd::prelude::*;
use crate::oops::share;
use crate::BytesRef;

verus! {

/// A module that has been defined to the runtime.
pub struct ModuleEntry {
    /// The version of the module.
    pub version: BytesRef,
    /// Where the module was found.
    pub location: BytesRef,
    pub can_read_all_unnamed: bool,
    pub has_default_read_edges: bool,
    /// Whether the module's reads list is walked when dead modules are purged.
    pub must_walk_read: bool,
    /// Whether all packages of the module are exported without qualification.
    pub is_open: bool,
    /// Whether the module was patched when the runtime started.
    pub is_patched: bool,
    pub next: Option<std::sync::Arc<ModuleEntry>>,
}

impl ModuleEntry {
    /// Whether the module has a name. No module has one yet; the functions
    /// that ask say what they do with the answer, whatever it is.
    #[verifier::opaque]
    pub open spec fn named(&self) -> bool {
        false
    }

    /// The version of the module.
    pub fn version(&self) -> (version: BytesRef)
        ensures
            version == self.version,
    {
        share(&self.version)
    }

    /// Where the module was found.
    pub fn location(&self) -> (location: BytesRef)
        ensures
            location == self.location,
    {
        share(&self.location)
    }

    /// Whether the module reads another: no module has a reads list yet.
    pub fn can_read(&self) -> (yes: bool)
        ensures
            !yes,
    {
        false
    }

    /// Whether the module has a reads list: none has one yet.
    pub fn has_reads_list(&self) -> (yes: bool)
        ensures
            !yes,
    {
        false
    }

    pub fn is_open(&self) -> (open: bool)
        ensures
            open == self.is_open,
    {
        self.is_open
    }

    /// Whether the module has a name: none has one yet.
    pub fn is_named(&self) -> (named: bool)
        ensures
            named == self.named(),
            !named,
    {
        proof {
            reveal(ModuleEntry::named);
        }
        false
    }

    /// Whether the module reads all unnamed modules: what its flag says. A
    /// module without a name always reads them, so such a module must have
    /// the flag set to be asked.
    pub fn can_read_all_unnamed(&self) -> (yes: bool)
        requires
            self.named() || self.can_read_all_unnamed,
        ensures
            yes == self.can_read_all_unnamed,
    {
        self.can_read_all_unnamed
    }

    pub fn has_default_read_edges(&self) -> (yes: bool)
        ensures
            yes == self.has_default_read_edges,
    {
        self.has_default_read_edges
    }

    pub fn is_patched(&self) -> (patched: bool)
        ensures
            patched == self.is_patched,
    {
        self.is_patched
    }

    /// The module that follows this one in its table.
    pub fn next(&self) -> (next: Option<std::sync::Arc<ModuleEntry>>)
        ensures
            next == self.next,
    {
        match &self.next {
            Some(module) => Some(share(module)),
            None => None,
        }
    }
}

/// The modules of a class loader.
pub struct ModuleEntryTable {
    pub entries: Vec<ModuleEntry>,
}

impl ModuleEntryTable {
    /// Adds a module at the end of the table.
    pub fn add_entry(&mut self, entry: ModuleEntry)
        ensures
            final(self).entries@ == old(self).entries@.push(entry),
    {
        self.entries.push(entry);
    }

    /// The number of modules in the table.
    pub fn entry_size(&self) -> (n: usize)
        ensures
            n == self.entries@.len(),
    {
        self.entries.len()
    }
}

} // verus!
